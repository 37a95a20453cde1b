//! Where adapters are handed out: the credentials of an integration are
//! looked up, then the factory builds its adapter. Nothing is cached; every
//! call builds afresh.
use vstd::prelude::*;
use std::sync::Arc;
use crate::adapter::{Adapter, built_adapter, create_adapter};
use crate::errors::{ErrorView, IntegrationError};
use crate::types::{Integration, IntegrationCredentials};

verus! {

/// The registry's bookkeeping. It holds no adapters.
pub struct RegistryState {}

impl RegistryState {
    /// Fresh bookkeeping.
    pub fn new() -> (r: RegistryState) {
        RegistryState {}
    }
}

/// A handle that holds the registry once it is initialised.
pub struct Registry {
    state: Option<Arc<RegistryState>>,
}

/// Relies on `Arc::clone`: a second handle to the same value.
#[verifier::external_body]
fn share(a: &Arc<RegistryState>) -> (r: Arc<RegistryState>)
    ensures
        r == *a,
{
    Arc::clone(a)
}

impl Registry {
    /// Whether the registry has been initialised.
    pub closed spec fn is_initialised(&self) -> bool {
        self.state is Some
    }

    /// The registry, once initialised.
    pub closed spec fn held(&self) -> RegistryState {
        *self.state->0
    }

    /// A handle with no registry yet.
    pub fn new() -> (r: Registry)
        ensures
            !r.is_initialised(),
    {
        Registry { state: None }
    }
}

/// Initialises the registry once; later calls hand out the same one.
pub fn init_registry(registry: &mut Registry) -> (r: Arc<RegistryState>)
    ensures
        final(registry).is_initialised(),
        *r == final(registry).held(),
        old(registry).is_initialised() ==> *final(registry) == *old(registry),
{
    match &registry.state {
        Some(existing) => {
            return share(existing);
        },
        None => {},
    }
    let state = Arc::new(RegistryState::new());
    let handed = share(&state);
    registry.state = Some(state);
    handed
}

/// The registry, initialised on first use.
pub fn get_registry(registry: &mut Registry) -> (r: Arc<RegistryState>)
    ensures
        final(registry).is_initialised(),
        *r == final(registry).held(),
        old(registry).is_initialised() ==> *final(registry) == *old(registry),
{
    init_registry(registry)
}

/// Forgets cached adapters. No adapter is ever cached, so there is nothing
/// to forget; the call is kept for callers that update credentials.
pub fn clear_cache() {
}

/// The key of an integration's entry in the secret store: its credentials
/// reference where it has one, else its identifier.
pub open spec fn credentials_key_of(integration: Integration) -> Seq<char> {
    match integration.credentials_ref {
        Some(r) => r@,
        None => integration.id@,
    }
}

/// The key of an integration's entry in the secret store.
pub fn credentials_key(integration: &Integration) -> (r: &String)
    ensures
        r@ == credentials_key_of(*integration),
{
    match &integration.credentials_ref {
        Some(r) => r,
        None => &integration.id,
    }
}

/// The first part of the error for an integration without stored credentials.
pub const NO_CREDENTIALS: &'static str = "No credentials found for integration '";

/// The last part of that error.
pub const CONFIGURE_FIRST: &'static str = "'. Please configure credentials first.";

/// The prefix of the error for a secret store that failed.
pub const STORE_FAILED: &'static str = "Failed to load credentials: ";

/// The credentials that a lookup in the secret store gives: what it found;
/// a configuration error that names the integration where it found nothing,
/// or that carries the store's message where it failed.
pub open spec fn credentials_result(
    integration: Integration,
    stored: Result<Option<IntegrationCredentials>, String>,
) -> Result<IntegrationCredentials, ErrorView> {
    match stored {
        Ok(Some(c)) => Ok(c),
        Ok(None) => Err(ErrorView::Config(NO_CREDENTIALS@ + integration.name@ + CONFIGURE_FIRST@)),
        Err(m) => Err(ErrorView::Config(STORE_FAILED@ + m@)),
    }
}

/// The credentials of an integration, from what the secret store answered
/// for its key.
pub fn load_credentials(
    integration: &Integration,
    stored: Result<Option<IntegrationCredentials>, String>,
) -> (r: Result<IntegrationCredentials, IntegrationError>)
    ensures
        match (r, credentials_result(*integration, stored)) {
            (Ok(c), Ok(d)) => c == d,
            (Err(e), Err(f)) => e@ == f,
            _ => false,
        },
{
    match stored {
        Ok(Some(c)) => Ok(c),
        Ok(None) => {
            let mut message = String::from_str(NO_CREDENTIALS);
            message.append(integration.name.as_str());
            message.append(CONFIGURE_FIRST);
            Err(IntegrationError::ConfigError { message })
        },
        Err(m) => {
            let mut message = String::from_str(STORE_FAILED);
            message.append(m.as_str());
            Err(IntegrationError::ConfigError { message })
        },
    }
}

/// The adapter of an integration, from what the secret store answered for
/// its key: the credentials' error where there are none, else the factory's
/// result, unchanged.
pub fn get_adapter(
    integration: &Integration,
    stored: Result<Option<IntegrationCredentials>, String>,
) -> (r: Result<Adapter, IntegrationError>)
    ensures
        match credentials_result(*integration, stored) {
            Err(f) => r matches Err(e) && e@ == f,
            Ok(c) => match (r, built_adapter(*integration, c)) {
                (Ok(a), Ok(v)) => a@ == v,
                (Err(e), Err(f)) => e@ == f,
                _ => false,
            },
        },
{
    let credentials = match load_credentials(integration, stored) {
        Ok(c) => c,
        Err(e) => return Err(e),
    };
    create_adapter(integration, &credentials)
}

} // verus!

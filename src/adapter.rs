//! The common adapter contract, and the factory that builds the adapter of an
//! integration from its credentials.
use vstd::prelude::*;
use crate::errors::{ErrorView, IntegrationError};
use crate::gitlab::{GitLabAdapter, gitlab_answer, gitlab_url, token_request, user_endpoint};
use crate::http::{answer_document, outcome_view, ApiRequest, ApiResponse, Method};
use crate::jenkins::{JenkinsAdapter, basic_request};
use crate::keycloak::KeycloakAdapter;
use crate::sonarqube::{SonarQubeAdapter, token_user_request};
use crate::text::trim_end_char;
use crate::types::{Integration, IntegrationCredentials, IntegrationType};

verus! {

/// The display name of a kind of service.
pub open spec fn service_name(kind: IntegrationType) -> Seq<char> {
    match kind {
        IntegrationType::GitLab => "GitLab"@,
        IntegrationType::Jenkins => "Jenkins"@,
        IntegrationType::Kubernetes => "Kubernetes"@,
        IntegrationType::SonarQube => "SonarQube"@,
        IntegrationType::Keycloak => "Keycloak"@,
    }
}

/// The name of a kind of service.
pub fn name_of(kind: IntegrationType) -> (r: &'static str)
    ensures
        r@ == service_name(kind),
{
    match kind {
        IntegrationType::GitLab => "GitLab",
        IntegrationType::Jenkins => "Jenkins",
        IntegrationType::Kubernetes => "Kubernetes",
        IntegrationType::SonarQube => "SonarQube",
        IntegrationType::Keycloak => "Keycloak",
    }
}

/// What every adapter tells about itself, without any I/O.
pub trait IntegrationAdapter {
    /// The kind of service that the adapter talks to.
    spec fn kind(&self) -> IntegrationType;

    /// The address of the service.
    spec fn base_address(&self) -> Seq<char>;

    /// The display name of the service.
    fn get_name(&self) -> (r: &'static str)
        ensures
            r@ == service_name(self.kind()),
    ;

    /// The kind of service.
    fn get_integration_type(&self) -> (r: IntegrationType)
        ensures
            r == self.kind(),
    ;

    /// The address of the service.
    fn get_base_url(&self) -> (r: &str)
        ensures
            r@ == self.base_address(),
    ;
}

impl IntegrationAdapter for GitLabAdapter {
    open spec fn kind(&self) -> IntegrationType {
        IntegrationType::GitLab
    }

    open spec fn base_address(&self) -> Seq<char> {
        self.base()
    }

    fn get_name(&self) -> (r: &'static str) {
        name_of(IntegrationType::GitLab)
    }

    fn get_integration_type(&self) -> (r: IntegrationType) {
        IntegrationType::GitLab
    }

    fn get_base_url(&self) -> (r: &str) {
        self.base_text()
    }
}

impl IntegrationAdapter for JenkinsAdapter {
    open spec fn kind(&self) -> IntegrationType {
        IntegrationType::Jenkins
    }

    open spec fn base_address(&self) -> Seq<char> {
        self.base()
    }

    fn get_name(&self) -> (r: &'static str) {
        name_of(IntegrationType::Jenkins)
    }

    fn get_integration_type(&self) -> (r: IntegrationType) {
        IntegrationType::Jenkins
    }

    fn get_base_url(&self) -> (r: &str) {
        self.base_text()
    }
}

impl IntegrationAdapter for KeycloakAdapter {
    open spec fn kind(&self) -> IntegrationType {
        IntegrationType::Keycloak
    }

    open spec fn base_address(&self) -> Seq<char> {
        self.base()
    }

    fn get_name(&self) -> (r: &'static str) {
        name_of(IntegrationType::Keycloak)
    }

    fn get_integration_type(&self) -> (r: IntegrationType) {
        IntegrationType::Keycloak
    }

    fn get_base_url(&self) -> (r: &str) {
        self.base_text()
    }
}

impl IntegrationAdapter for SonarQubeAdapter {
    open spec fn kind(&self) -> IntegrationType {
        IntegrationType::SonarQube
    }

    open spec fn base_address(&self) -> Seq<char> {
        self.base()
    }

    fn get_name(&self) -> (r: &'static str) {
        name_of(IntegrationType::SonarQube)
    }

    fn get_integration_type(&self) -> (r: IntegrationType) {
        IntegrationType::SonarQube
    }

    fn get_base_url(&self) -> (r: &str) {
        self.base_text()
    }
}

/// The adapter of an integration that speaks HTTP.
pub enum Adapter {
    GitLab(GitLabAdapter),
    Jenkins(JenkinsAdapter),
    SonarQube(SonarQubeAdapter),
    Keycloak(KeycloakAdapter),
}

/// What an adapter is bound to: its kind, address and secrets.
pub enum AdapterView {
    GitLab { base: Seq<char>, token: Seq<char> },
    Jenkins { base: Seq<char>, user: Seq<char>, secret: Seq<char> },
    SonarQube { base: Seq<char>, token: Seq<char> },
    Keycloak { base: Seq<char>, user: Seq<char>, secret: Seq<char> },
}

impl View for Adapter {
    type V = AdapterView;

    open spec fn view(&self) -> AdapterView {
        match self {
            Adapter::GitLab(a) => AdapterView::GitLab { base: a.base(), token: a.token_text() },
            Adapter::Jenkins(a) => AdapterView::Jenkins { base: a.base(), user: a.user(), secret: a.secret() },
            Adapter::SonarQube(a) => AdapterView::SonarQube { base: a.base(), token: a.token_text() },
            Adapter::Keycloak(a) => AdapterView::Keycloak { base: a.base(), user: a.user(), secret: a.secret() },
        }
    }
}

impl IntegrationAdapter for Adapter {
    open spec fn kind(&self) -> IntegrationType {
        match self {
            Adapter::GitLab(_) => IntegrationType::GitLab,
            Adapter::Jenkins(_) => IntegrationType::Jenkins,
            Adapter::SonarQube(_) => IntegrationType::SonarQube,
            Adapter::Keycloak(_) => IntegrationType::Keycloak,
        }
    }

    open spec fn base_address(&self) -> Seq<char> {
        match self {
            Adapter::GitLab(a) => a.base(),
            Adapter::Jenkins(a) => a.base(),
            Adapter::SonarQube(a) => a.base(),
            Adapter::Keycloak(a) => a.base(),
        }
    }

    fn get_name(&self) -> (r: &'static str) {
        name_of(self.get_integration_type())
    }

    fn get_integration_type(&self) -> (r: IntegrationType) {
        match self {
            Adapter::GitLab(_) => IntegrationType::GitLab,
            Adapter::Jenkins(_) => IntegrationType::Jenkins,
            Adapter::SonarQube(_) => IntegrationType::SonarQube,
            Adapter::Keycloak(_) => IntegrationType::Keycloak,
        }
    }

    fn get_base_url(&self) -> (r: &str) {
        match self {
            Adapter::GitLab(a) => a.base_text(),
            Adapter::Jenkins(a) => a.base_text(),
            Adapter::SonarQube(a) => a.base_text(),
            Adapter::Keycloak(a) => a.base_text(),
        }
    }
}

/// Whether the outcome of a connection request proves the connection.
pub open spec fn connection_proved(adapter: AdapterView, outcome: Result<ApiResponse, ErrorView>) -> Result<(), ErrorView> {
    let doc = match adapter {
        AdapterView::GitLab { base, .. } => gitlab_answer(base, user_endpoint(), outcome),
        _ => answer_document(outcome),
    };
    match doc {
        Ok(_) => Ok(()),
        Err(e) => Err(e),
    }
}

impl Adapter {
    /// The lightweight authenticated request that tests the connection: the
    /// token's user on GitLab, the root node on Jenkins, the system status on
    /// SonarQube, and the master realm's discovery document on Keycloak.
    pub fn connection_request(&self) -> (r: ApiRequest)
        ensures
            match self {
                Adapter::GitLab(a) => token_request(r, Method::Get, gitlab_url(a.base(), user_endpoint()), a.token_text()),
                Adapter::Jenkins(a) => basic_request(r, Method::Get, a.base() + "/api/json?tree=nodeName"@, a.user(), a.secret()),
                Adapter::SonarQube(a) => token_user_request(r, a.base() + "/api"@ + "/system/status"@, a.token_text()),
                Adapter::Keycloak(a) => basic_request(
                    r,
                    Method::Get,
                    a.base() + "/realms/master/.well-known/openid-configuration"@,
                    a.user(),
                    a.secret(),
                ),
            },
    {
        match self {
            Adapter::GitLab(a) => a.connection_request(),
            Adapter::Jenkins(a) => a.connection_request(),
            Adapter::SonarQube(a) => a.connection_request(),
            Adapter::Keycloak(a) => a.connection_request(),
        }
    }

    /// Whether the outcome of the connection request proves reachability and
    /// valid credentials.
    pub fn check_connection(&self, outcome: Result<ApiResponse, IntegrationError>) -> (r: Result<(), IntegrationError>)
        ensures
            match (r, connection_proved(self@, outcome_view(outcome))) {
                (Ok(_), Ok(_)) => true,
                (Err(e), Err(f)) => e@ == f,
                _ => false,
            },
    {
        match self {
            Adapter::GitLab(a) => a.check_connection(outcome),
            Adapter::Jenkins(a) => a.check_connection(outcome),
            Adapter::SonarQube(a) => a.check_connection(outcome),
            Adapter::Keycloak(a) => a.check_connection(outcome),
        }
    }
}

/// A secret that is given and not empty.
pub open spec fn filled(s: Option<String>) -> Option<Seq<char>> {
    match s {
        Some(t) => if t@.len() > 0 { Some(t@) } else { None },
        None => None,
    }
}

/// The first of two secrets that is given and not empty.
pub open spec fn first_filled(a: Option<String>, b: Option<String>) -> Option<Seq<char>> {
    match filled(a) {
        Some(x) => Some(x),
        None => filled(b),
    }
}

/// Why a GitLab adapter cannot be built.
pub const GITLAB_NEEDS_TOKEN: &'static str = "GitLab integration requires a Personal Access Token. GitLab API v4 does not support Basic Auth with username/password.";

/// Why a Jenkins adapter cannot be built without a user.
pub const JENKINS_NEEDS_USER: &'static str = "Jenkins integration requires a username";

/// Why a Jenkins adapter cannot be built without a secret.
pub const JENKINS_NEEDS_SECRET: &'static str = "Jenkins integration requires a password or token";

/// Why a SonarQube adapter cannot be built.
pub const SONARQUBE_NEEDS_TOKEN: &'static str = "SonarQube integration requires a token";

/// Why a Keycloak adapter cannot be built without a user.
pub const KEYCLOAK_NEEDS_USER: &'static str = "Keycloak integration requires a username";

/// Why a Keycloak adapter cannot be built without a secret.
pub const KEYCLOAK_NEEDS_SECRET: &'static str = "Keycloak integration requires a password or token";

/// Why the factory builds no cluster adapter.
pub const KUBERNETES_ELSEWHERE: &'static str = "Kubernetes adapter must be created asynchronously in command layer";

/// The adapter that an integration and its credentials give. GitLab and
/// SonarQube need a token; Jenkins and Keycloak need a user and a password,
/// for which a token stands in where no password is given. A cluster adapter
/// is built elsewhere (it must read its config file and connect).
pub open spec fn built_adapter(integration: Integration, credentials: IntegrationCredentials) -> Result<AdapterView, ErrorView> {
    let base = trim_end_char(integration.base_url@, '/');
    match integration.integration_type {
        IntegrationType::GitLab => match filled(credentials.token) {
            Some(token) => Ok(AdapterView::GitLab { base, token }),
            None => Err(ErrorView::Config(GITLAB_NEEDS_TOKEN@)),
        },
        IntegrationType::Jenkins => match filled(credentials.username) {
            None => Err(ErrorView::Config(JENKINS_NEEDS_USER@)),
            Some(user) => match first_filled(credentials.password, credentials.token) {
                Some(secret) => Ok(AdapterView::Jenkins { base, user, secret }),
                None => Err(ErrorView::Config(JENKINS_NEEDS_SECRET@)),
            },
        },
        IntegrationType::SonarQube => match filled(credentials.token) {
            Some(token) => Ok(AdapterView::SonarQube { base, token }),
            None => Err(ErrorView::Config(SONARQUBE_NEEDS_TOKEN@)),
        },
        IntegrationType::Keycloak => match filled(credentials.username) {
            None => Err(ErrorView::Config(KEYCLOAK_NEEDS_USER@)),
            Some(user) => match first_filled(credentials.password, credentials.token) {
                Some(secret) => Ok(AdapterView::Keycloak { base, user, secret }),
                None => Err(ErrorView::Config(KEYCLOAK_NEEDS_SECRET@)),
            },
        },
        IntegrationType::Kubernetes => Err(ErrorView::Config(KUBERNETES_ELSEWHERE@)),
    }
}

fn filled_text(s: &Option<String>) -> (r: Option<String>)
    ensures
        match r {
            Some(t) => filled(*s) == Some(t@),
            None => filled(*s) is None,
        },
{
    match s {
        Some(t) => if t.as_str().unicode_len() > 0 {
            Some(t.clone())
        } else {
            None
        },
        None => None,
    }
}

fn first_filled_text(a: &Option<String>, b: &Option<String>) -> (r: Option<String>)
    ensures
        match r {
            Some(t) => first_filled(*a, *b) == Some(t@),
            None => first_filled(*a, *b) is None,
        },
{
    match filled_text(a) {
        Some(t) => Some(t),
        None => filled_text(b),
    }
}

/// Builds the adapter of an integration from its credentials.
pub fn create_adapter(integration: &Integration, credentials: &IntegrationCredentials) -> (r: Result<Adapter, IntegrationError>)
    ensures
        match (r, built_adapter(*integration, *credentials)) {
            (Ok(a), Ok(v)) => a@ == v,
            (Err(e), Err(f)) => e@ == f,
            _ => false,
        },
{
    let base_url = integration.base_url.clone();
    match integration.integration_type {
        IntegrationType::GitLab => match filled_text(&credentials.token) {
            Some(token) => Ok(Adapter::GitLab(GitLabAdapter::new(base_url, token))),
            None => Err(IntegrationError::config(GITLAB_NEEDS_TOKEN)),
        },
        IntegrationType::Jenkins => match filled_text(&credentials.username) {
            None => Err(IntegrationError::config(JENKINS_NEEDS_USER)),
            Some(user) => match first_filled_text(&credentials.password, &credentials.token) {
                Some(secret) => Ok(Adapter::Jenkins(JenkinsAdapter::new(base_url, user, secret))),
                None => Err(IntegrationError::config(JENKINS_NEEDS_SECRET)),
            },
        },
        IntegrationType::SonarQube => match filled_text(&credentials.token) {
            Some(token) => Ok(Adapter::SonarQube(SonarQubeAdapter::new(base_url, token))),
            None => Err(IntegrationError::config(SONARQUBE_NEEDS_TOKEN)),
        },
        IntegrationType::Keycloak => match filled_text(&credentials.username) {
            None => Err(IntegrationError::config(KEYCLOAK_NEEDS_USER)),
            Some(user) => match first_filled_text(&credentials.password, &credentials.token) {
                Some(secret) => Ok(Adapter::Keycloak(KeycloakAdapter::new(base_url, user, secret))),
                None => Err(IntegrationError::config(KEYCLOAK_NEEDS_SECRET)),
            },
        },
        IntegrationType::Kubernetes => Err(IntegrationError::config(KUBERNETES_ELSEWHERE)),
    }
}

} // verus!

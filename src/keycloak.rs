//! The identity server: realms and clients, read from its admin endpoints
//! with basic authentication. Without admin rights these lists come back empty.
use vstd::prelude::*;
use crate::errors::{ErrorView, IntegrationError};
use crate::http::{
    agrees_list, answer_document, answer_json, list_from, list_result, outcome_view, ApiRequest,
    ApiResponse, Auth, Method, FORBIDDEN, UNAUTHORIZED,
};
use crate::jenkins::basic_request;
use crate::json::{Json, array_spec, bool_spec, get_spec, str_spec};
use crate::text::{same_text, trim_end_char, trim_end_slashes, url_encode, url_encoded};

verus! {

/// A realm.
#[derive(Debug, Clone, PartialEq, Eq)]
pub struct KeycloakRealm {
    pub realm: String,
    pub enabled: bool,
}

/// A client of a realm.
#[derive(Debug, Clone, PartialEq, Eq)]
pub struct KeycloakClient {
    pub client_id: String,
    pub name: String,
    pub enabled: bool,
}

/// What a realm lacks when its document has no name.
pub const MISSING_REALM: &'static str = "Invalid realm format: missing 'realm'";

/// What a client lacks when its document has no identifier.
pub const MISSING_CLIENT_ID: &'static str = "Invalid client format: missing 'clientId'";

/// What an answer lacks when it is no list.
pub const NOT_A_LIST: &'static str = "Failed to parse response: expected a list";

/// Whether the outcome of a request to an admin endpoint says that admin
/// access is missing: a forbidden (403) or absent (404) answer, or the error
/// that the executor makes of one. A refused authentication (401) is not.
pub open spec fn admin_denied(outcome: Result<ApiResponse, ErrorView>) -> bool {
    match outcome {
        Ok(resp) => resp.status == 403 || resp.status == 404,
        Err(e) => e == ErrorView::Auth(FORBIDDEN@) || e is NotFound,
    }
}

/// The realm that a document describes; enabled unless it says otherwise.
pub open spec fn realm_spec(j: Json) -> Option<KeycloakRealm> {
    match str_spec(get_spec(j, "realm"@)) {
        Some(realm) => Some(KeycloakRealm {
            realm,
            enabled: match bool_spec(get_spec(j, "enabled"@)) {
                Some(b) => b,
                None => true,
            },
        }),
        None => None,
    }
}

/// The client that a document describes; named by its identifier unless it
/// has a name, and enabled unless it says otherwise.
pub open spec fn client_spec(j: Json) -> Option<KeycloakClient> {
    match str_spec(get_spec(j, "clientId"@)) {
        Some(client_id) => Some(KeycloakClient {
            client_id,
            name: match str_spec(get_spec(j, "name"@)) {
                Some(n) => n,
                None => client_id,
            },
            enabled: match bool_spec(get_spec(j, "enabled"@)) {
                Some(b) => b,
                None => true,
            },
        }),
        None => None,
    }
}

/// The records that an admin list answer holds: none where admin access is
/// missing; else the decoded items of the list, or the error that the
/// answer stands for (so a refused authentication surfaces).
pub open spec fn admin_list<T>(
    outcome: Result<ApiResponse, ErrorView>,
    f: spec_fn(Json) -> Option<T>,
    fault: Seq<char>,
) -> Result<Seq<T>, ErrorView> {
    if admin_denied(outcome) {
        Ok(Seq::empty())
    } else {
        match answer_document(outcome) {
            Err(e) => Err(e),
            Ok(doc) => if array_spec(Some(doc)) is None {
                Err(ErrorView::Config(NOT_A_LIST@))
            } else {
                list_result(Ok(doc), f, fault)
            },
        }
    }
}

/// The realms of an answer to the realms request.
pub open spec fn realms_answer(outcome: Result<ApiResponse, ErrorView>) -> Result<Seq<KeycloakRealm>, ErrorView> {
    admin_list(outcome, |j: Json| realm_spec(j), MISSING_REALM@)
}

/// The clients of an answer to a realm's clients request.
pub open spec fn clients_answer(outcome: Result<ApiResponse, ErrorView>) -> Result<Seq<KeycloakClient>, ErrorView> {
    admin_list(outcome, |j: Json| client_spec(j), MISSING_CLIENT_ID@)
}

/// An admin endpoint that forbids access (403), or is absent (404), yields
/// empty lists of realms and clients, whatever the body says; so does the
/// executor's error for such an answer.
pub proof fn law_admin_refusal_yields_empty_lists(status: u16, body: String)
    requires
        status == 403 || status == 404,
    ensures
        realms_answer(Ok(ApiResponse { status, body })) == Ok::<Seq<KeycloakRealm>, ErrorView>(Seq::empty()),
        clients_answer(Ok(ApiResponse { status, body })) == Ok::<Seq<KeycloakClient>, ErrorView>(Seq::empty()),
        realms_answer(Err(ErrorView::Auth(FORBIDDEN@))) == Ok::<Seq<KeycloakRealm>, ErrorView>(Seq::empty()),
        clients_answer(Err(ErrorView::Auth(FORBIDDEN@))) == Ok::<Seq<KeycloakClient>, ErrorView>(Seq::empty()),
        realms_answer(Err(ErrorView::NotFound)) == Ok::<Seq<KeycloakRealm>, ErrorView>(Seq::empty()),
        clients_answer(Err(ErrorView::NotFound)) == Ok::<Seq<KeycloakClient>, ErrorView>(Seq::empty()),
{
}

/// A refused authentication (401) on an admin endpoint surfaces as an
/// authentication error, whether the answer or the executor's error for it
/// comes back; it is never taken for missing admin access.
pub proof fn law_unauthorized_surfaces(body: String)
    ensures
        realms_answer(Ok(ApiResponse { status: 401, body })) == Err::<Seq<KeycloakRealm>, ErrorView>(ErrorView::Auth(body@)),
        clients_answer(Ok(ApiResponse { status: 401, body })) == Err::<Seq<KeycloakClient>, ErrorView>(ErrorView::Auth(body@)),
        realms_answer(Err(ErrorView::Auth(UNAUTHORIZED@))) == Err::<Seq<KeycloakRealm>, ErrorView>(ErrorView::Auth(UNAUTHORIZED@)),
        clients_answer(Err(ErrorView::Auth(UNAUTHORIZED@))) == Err::<Seq<KeycloakClient>, ErrorView>(ErrorView::Auth(UNAUTHORIZED@)),
{
    reveal_strlit("Authentication failed");
    reveal_strlit("Access denied");
    assert(UNAUTHORIZED@[1] != FORBIDDEN@[1]);
}

/// Whether the outcome of an admin request says that admin access is missing.
fn admin_refused(outcome: &Result<ApiResponse, IntegrationError>) -> (r: bool)
    ensures
        r == admin_denied(outcome_view(*outcome)),
{
    match outcome {
        Ok(resp) => resp.status == 403 || resp.status == 404,
        Err(IntegrationError::NotFound) => true,
        Err(IntegrationError::AuthError { message }) => same_text(message.as_str(), FORBIDDEN),
        Err(_) => false,
    }
}

fn realm_of(j: &Json) -> (r: Option<KeycloakRealm>)
    ensures
        r == realm_spec(*j),
{
    match j.get_str("realm") {
        Some(realm) => {
            let enabled = match j.get_bool("enabled") {
                Some(b) => b,
                None => true,
            };
            Some(KeycloakRealm { realm: realm.clone(), enabled })
        },
        None => None,
    }
}

fn client_of(j: &Json) -> (r: Option<KeycloakClient>)
    ensures
        r == client_spec(*j),
{
    match j.get_str("clientId") {
        Some(client_id) => {
            let name = match j.get_str("name") {
                Some(n) => n.clone(),
                None => client_id.clone(),
            };
            let enabled = match j.get_bool("enabled") {
                Some(b) => b,
                None => true,
            };
            Some(KeycloakClient { client_id: client_id.clone(), name, enabled })
        },
        None => None,
    }
}

/// The endpoint that lists the clients of a realm.
pub open spec fn clients_endpoint(realm: Seq<char>) -> Seq<char> {
    "/admin/realms/"@ + url_encoded(realm) + "/clients"@
}

/// The adapter of one identity server.
pub struct KeycloakAdapter {
    base_url: String,
    username: String,
    password: String,
}

impl KeycloakAdapter {
    /// The base address, without trailing slashes.
    pub closed spec fn base(&self) -> Seq<char> {
        self.base_url@
    }

    /// The user name.
    pub closed spec fn user(&self) -> Seq<char> {
        self.username@
    }

    /// The password or service-account token.
    pub closed spec fn secret(&self) -> Seq<char> {
        self.password@
    }

    /// An adapter for the server at `base_url`.
    pub fn new(base_url: String, username: String, password: String) -> (r: KeycloakAdapter)
        ensures
            r.base() == trim_end_char(base_url@, '/'),
            r.user() == username@,
            r.secret() == password@,
    {
        KeycloakAdapter { base_url: trim_end_slashes(base_url.as_str()), username, password }
    }

    /// The base address, without trailing slashes.
    pub fn base_text(&self) -> (r: &str)
        ensures
            r@ == self.base(),
    {
        self.base_url.as_str()
    }

    /// The full address of an endpoint.
    pub fn api_url(&self, endpoint: &str) -> (r: String)
        ensures
            r@ == self.base() + endpoint@,
    {
        let mut url = self.base_url.clone();
        url.append(endpoint);
        url
    }

    fn request(&self, endpoint: &str) -> (r: ApiRequest)
        ensures
            basic_request(r, Method::Get, self.base() + endpoint@, self.user(), self.secret()),
    {
        ApiRequest {
            method: Method::Get,
            url: self.api_url(endpoint),
            auth: Auth::Basic { username: self.username.clone(), password: self.password.clone() },
            json_body: None,
        }
    }

    /// The request that lists the realms.
    pub fn realms_request(&self) -> (r: ApiRequest)
        ensures
            basic_request(r, Method::Get, self.base() + "/admin/realms"@, self.user(), self.secret()),
    {
        self.request("/admin/realms")
    }

    /// The request that lists the clients of a realm.
    pub fn clients_request(&self, realm: &str) -> (r: ApiRequest)
        ensures
            basic_request(r, Method::Get, self.base() + clients_endpoint(realm@), self.user(), self.secret()),
    {
        let mut endpoint = String::from_str("/admin/realms/");
        let name = url_encode(realm);
        endpoint.append(name.as_str());
        endpoint.append("/clients");
        self.request(endpoint.as_str())
    }

    /// The request that checks the connection: the master realm's discovery
    /// document, which needs no admin rights.
    pub fn connection_request(&self) -> (r: ApiRequest)
        ensures
            basic_request(
                r,
                Method::Get,
                self.base() + "/realms/master/.well-known/openid-configuration"@,
                self.user(),
                self.secret(),
            ),
    {
        self.request("/realms/master/.well-known/openid-configuration")
    }

    /// The realms that the outcome of the realms request lists; none where
    /// admin access is denied.
    pub fn read_realms(&self, outcome: Result<ApiResponse, IntegrationError>) -> (r: Result<Vec<KeycloakRealm>, IntegrationError>)
        ensures
            agrees_list(r, realms_answer(outcome_view(outcome))),
    {
        if admin_refused(&outcome) {
            let none: Vec<KeycloakRealm> = Vec::new();
            assert(none@ =~= Seq::<KeycloakRealm>::empty());
            return Ok(none);
        }
        match answer_json(outcome) {
            Err(e) => Err(e),
            Ok(doc) => {
                if doc.items().is_none() {
                    return Err(IntegrationError::config(NOT_A_LIST));
                }
                list_from(Ok(doc), realm_of, Ghost(|j: Json| realm_spec(j)), MISSING_REALM)
            },
        }
    }

    /// The clients that the outcome of a realm's clients request lists; none
    /// where admin access is denied.
    pub fn read_clients(&self, outcome: Result<ApiResponse, IntegrationError>) -> (r: Result<Vec<KeycloakClient>, IntegrationError>)
        ensures
            agrees_list(r, clients_answer(outcome_view(outcome))),
    {
        if admin_refused(&outcome) {
            let none: Vec<KeycloakClient> = Vec::new();
            assert(none@ =~= Seq::<KeycloakClient>::empty());
            return Ok(none);
        }
        match answer_json(outcome) {
            Err(e) => Err(e),
            Ok(doc) => {
                if doc.items().is_none() {
                    return Err(IntegrationError::config(NOT_A_LIST));
                }
                list_from(Ok(doc), client_of, Ghost(|j: Json| client_spec(j)), MISSING_CLIENT_ID)
            },
        }
    }

    /// Whether the outcome of the connection request proves the connection.
    pub fn check_connection(&self, outcome: Result<ApiResponse, IntegrationError>) -> (r: Result<(), IntegrationError>)
        ensures
            match answer_document(outcome_view(outcome)) {
                Err(e) => r matches Err(f) && f@ == e,
                Ok(_) => r is Ok,
            },
    {
        match answer_json(outcome) {
            Err(e) => Err(e),
            Ok(_) => Ok(()),
        }
    }
}

} // verus!

//! The source-control CI platform: projects, pipelines and webhooks, read
//! through API v4 with a personal access token.
use vstd::prelude::*;
use crate::errors::{ErrorView, IntegrationError, status_error, status_to_error};
use crate::http::{
    agrees_list, is_success, list_from, list_result, outcome_view, result_view, ApiRequest,
    ApiResponse, Auth, Method,
};
use crate::json::{
    Json, get_spec, json_parse, json_quoted, parse_json, quote_json, str_spec, u32_spec,
    array_spec, decodes_all, decoded, decode_items,
};
use crate::text::{
    blank, decimal, decimal_text, has_prefix, is_blank, starts_with, trim_end_char,
    trim_end_slashes, trim_start, trim_start_spaces,
};

verus! {

/// A project.
#[derive(Debug, Clone, PartialEq, Eq)]
pub struct GitLabProject {
    pub id: u32,
    pub name: String,
    /// The path with its namespace (`group/project`).
    pub path: String,
    pub web_url: String,
}

/// A pipeline run.
#[derive(Debug, Clone, PartialEq, Eq)]
pub struct GitLabPipeline {
    pub id: u32,
    /// `success`, `failed`, `running`, `pending`, ...
    pub status: String,
    /// The branch or tag it ran on.
    pub git_ref: String,
    pub created_at: String,
}

/// A webhook of a project.
#[derive(Debug, Clone, PartialEq, Eq)]
pub struct GitLabWebhook {
    pub id: u32,
    pub url: String,
    pub events: Vec<String>,
}

/// The project that a document describes.
pub open spec fn project_spec(j: Json) -> Option<GitLabProject> {
    match (
        u32_spec(get_spec(j, "id"@)),
        str_spec(get_spec(j, "name"@)),
        str_spec(get_spec(j, "path"@)),
        str_spec(get_spec(j, "web_url"@)),
    ) {
        (Some(id), Some(name), Some(path), Some(web_url)) => Some(
            GitLabProject { id, name, path, web_url },
        ),
        _ => None,
    }
}

/// The pipeline that a document describes.
pub open spec fn pipeline_spec(j: Json) -> Option<GitLabPipeline> {
    match (
        u32_spec(get_spec(j, "id"@)),
        str_spec(get_spec(j, "status"@)),
        str_spec(get_spec(j, "ref"@)),
        str_spec(get_spec(j, "created_at"@)),
    ) {
        (Some(id), Some(status), Some(git_ref), Some(created_at)) => Some(
            GitLabPipeline { id, status, git_ref, created_at },
        ),
        _ => None,
    }
}

/// The text of a string document.
pub open spec fn string_item(j: Json) -> Option<String> {
    str_spec(Some(j))
}

/// Whether a document describes a webhook: an id, an address and a list of
/// event names.
pub open spec fn webhook_decodes(j: Json) -> bool {
    &&& u32_spec(get_spec(j, "id"@)) is Some
    &&& str_spec(get_spec(j, "url"@)) is Some
    &&& array_spec(get_spec(j, "events"@)) matches Some(events)
    &&& decodes_all(events, |e: Json| string_item(e))
}

/// Whether `w` is the webhook that a document describes.
pub open spec fn webhook_fits(j: Json, w: GitLabWebhook) -> bool {
    &&& u32_spec(get_spec(j, "id"@)) == Some(w.id)
    &&& str_spec(get_spec(j, "url"@)) == Some(w.url)
    &&& array_spec(get_spec(j, "events"@)) matches Some(events)
    &&& w.events@ == decoded(events, |e: Json| string_item(e))
}

fn project_of(j: &Json) -> (r: Option<GitLabProject>)
    ensures
        r == project_spec(*j),
{
    match (j.get_u32("id"), j.get_str("name"), j.get_str("path"), j.get_str("web_url")) {
        (Some(id), Some(name), Some(path), Some(web_url)) => Some(
            GitLabProject { id, name: name.clone(), path: path.clone(), web_url: web_url.clone() },
        ),
        _ => None,
    }
}

fn pipeline_of(j: &Json) -> (r: Option<GitLabPipeline>)
    ensures
        r == pipeline_spec(*j),
{
    match (j.get_u32("id"), j.get_str("status"), j.get_str("ref"), j.get_str("created_at")) {
        (Some(id), Some(status), Some(git_ref), Some(created_at)) => Some(
            GitLabPipeline {
                id,
                status: status.clone(),
                git_ref: git_ref.clone(),
                created_at: created_at.clone(),
            },
        ),
        _ => None,
    }
}

fn string_of(j: &Json) -> (r: Option<String>)
    ensures
        r == string_item(*j),
{
    match j.text() {
        Some(s) => Some(s.clone()),
        None => None,
    }
}

fn webhook_of(j: &Json) -> (r: Option<GitLabWebhook>)
    ensures
        r is Some <==> webhook_decodes(*j),
        r matches Some(w) ==> webhook_fits(*j, w),
{
    match (j.get_u32("id"), j.get_str("url"), j.get_array("events")) {
        (Some(id), Some(url), Some(events)) => {
            match decode_items(events, string_of, Ghost(|e: Json| string_item(e))) {
                Some(names) => Some(GitLabWebhook { id, url: url.clone(), events: names }),
                None => None,
            }
        },
        _ => None,
    }
}

/// Whether every item describes a webhook.
pub open spec fn all_webhooks_decode(items: Seq<Json>) -> bool {
    forall|i: int| 0 <= i < items.len() ==> webhook_decodes(#[trigger] items[i])
}

/// Whether `r` holds the webhooks that a document lists, or the error that it
/// stands for.
pub open spec fn webhooks_agree(doc: Result<Json, ErrorView>, r: Result<Vec<GitLabWebhook>, IntegrationError>) -> bool {
    match doc {
        Err(e) => r matches Err(f) && f@ == e,
        Ok(doc) => match array_spec(Some(doc)) {
            Some(items) => if all_webhooks_decode(items) {
                r matches Ok(v) && v@.len() == items.len()
                    && forall|i: int| 0 <= i < items.len() ==> webhook_fits(#[trigger] items[i], v@[i])
            } else {
                r matches Err(f) && f@ == ErrorView::Config(WEBHOOKS_FAULT@)
            },
            None => r matches Err(f) && f@ == ErrorView::Config(WEBHOOKS_FAULT@),
        },
    }
}

/// The address of an endpoint of API v4 under a base address.
pub open spec fn gitlab_url(base: Seq<char>, endpoint: Seq<char>) -> Seq<char> {
    base + "/api/v4"@ + endpoint
}

/// Whether a text holds no `//`.
pub open spec fn no_double_slash(s: Seq<char>) -> bool {
    forall|i: int| 0 < i < s.len() ==> !(s[i - 1] == '/' && #[trigger] s[i] == '/')
}

proof fn lemma_trim_end_under_prefix(p: Seq<char>, h: Seq<char>)
    requires
        trim_end_char(h, '/').len() > 0,
    ensures
        trim_end_char(h, '/').len() <= h.len(),
        trim_end_char(p + h, '/') == p + trim_end_char(h, '/'),
        h.subrange(0, trim_end_char(h, '/').len() as int) == trim_end_char(h, '/'),
    decreases h.len(),
{
    if h.len() > 0 && h.last() == '/' {
        lemma_trim_end_under_prefix(p, h.drop_last());
        assert((p + h).drop_last() =~= p + h.drop_last());
        assert(h.drop_last().subrange(0, trim_end_char(h, '/').len() as int)
            =~= h.subrange(0, trim_end_char(h, '/').len() as int));
    } else {
        assert((p + h).last() == h.last());
        assert(h.subrange(0, h.len() as int) =~= h);
    }
}

/// The address of an API endpoint does not depend on trailing slashes of
/// the base address, and where the part of the base after its scheme holds
/// no `//` and names a host, and the endpoint starts with `/` and holds no
/// `//`, the address after the scheme holds no `//` either.
pub proof fn law_api_url_without_double_slash(scheme: Seq<char>, rest: Seq<char>, endpoint: Seq<char>)
    requires
        no_double_slash(rest),
        trim_end_char(rest, '/').len() > 0,
        endpoint.len() > 0,
        endpoint[0] == '/',
        no_double_slash(endpoint),
    ensures
        trim_end_char(scheme + rest + "/"@, '/') == trim_end_char(scheme + rest, '/'),
        gitlab_url(trim_end_char(scheme + rest, '/'), endpoint)
            == scheme + (trim_end_char(rest, '/') + "/api/v4"@ + endpoint),
        no_double_slash(trim_end_char(rest, '/') + "/api/v4"@ + endpoint),
{
    reveal_strlit("/");
    reveal_strlit("/api/v4");
    crate::text::law_base_url_normalisation(scheme + rest);
    assert((scheme + rest).push('/') =~= scheme + rest + "/"@);
    lemma_trim_end_under_prefix(scheme, rest);
    let t = trim_end_char(rest, '/');
    let a = "/api/v4"@;
    let x = t + a + endpoint;
    crate::text::law_base_url_normalisation(rest);
    assert(gitlab_url(scheme + t, endpoint) =~= scheme + x);
    assert forall|i: int| 0 < i < x.len() implies !(x[i - 1] == '/' && #[trigger] x[i] == '/') by {
        if i < t.len() {
            assert(x[i] == t[i] && x[i - 1] == t[i - 1]);
            assert(t[i] == rest.subrange(0, t.len() as int)[i]);
            assert(t[i - 1] == rest.subrange(0, t.len() as int)[i - 1]);
            assert(x[i] == rest[i] && x[i - 1] == rest[i - 1]);
        } else if i == t.len() {
            assert(x[i - 1] == t.last());
        } else if i < t.len() + a.len() {
            assert(x[i] == a[i - t.len()]);
            assert(x[i - 1] == a[i - 1 - t.len()]);
        } else if i == t.len() + a.len() {
            assert(x[i - 1] == a[6]);
        } else {
            assert(x[i] == endpoint[i - t.len() - a.len()]);
            assert(x[i - 1] == endpoint[i - 1 - t.len() - a.len()]);
        }
    }
}

/// Whether a body looks like an HTML page rather than JSON.
pub open spec fn looks_like_html(body: Seq<char>) -> bool {
    let t = trim_start_spaces(body);
    has_prefix(t, "<!DOCTYPE"@) || has_prefix(t, "<html"@) || has_prefix(t, "<HTML"@)
}

/// The explanation given when the service answers with an HTML page.
pub open spec fn html_message(base: Seq<char>, url: Seq<char>) -> Seq<char> {
    HTML_ANSWER@ + base + "\nFull API URL: "@ + url
}

/// The first part of the explanation given for an HTML answer.
pub const HTML_ANSWER: &'static str = "GitLab API returned HTML instead of JSON. This usually means:\n1. The base URL is incorrect (should be like 'https://gitlab.com' or 'https://gitlab.example.com', without '/api/v4')\n2. The URL is pointing to the web UI instead of the API\n3. There's a redirect to a login page\n\nCurrent base URL: ";

/// The first part of the explanation given for an empty answer.
pub const EMPTY_ANSWER: &'static str = "GitLab API returned empty response. Please check your base URL and token.\nCurrent base URL: ";

/// The explanation given for an empty answer: it names the configured base
/// address and the address that was asked.
pub open spec fn empty_message(base: Seq<char>, url: Seq<char>) -> Seq<char> {
    EMPTY_ANSWER@ + base + "\nFull API URL: "@ + url
}

/// The prefix of the explanation given for a body that is no JSON.
pub const UNPARSABLE_ANSWER: &'static str = "Failed to parse response: error decoding response body: ";

/// The document that an answer to `url` carries. An empty body and an HTML
/// page are configuration errors (they point at a wrong base address); then
/// an error status becomes its error; then the body must parse as JSON.
pub open spec fn gitlab_document(base: Seq<char>, url: Seq<char>, status: u16, body: Seq<char>) -> Result<Json, ErrorView> {
    if is_blank(body) {
        Err(ErrorView::Config(empty_message(base, url)))
    } else if looks_like_html(body) {
        Err(ErrorView::Config(html_message(base, url)))
    } else if !is_success(status) {
        Err(status_error(status, body))
    } else {
        match json_parse(body) {
            Ok(j) => Ok(j),
            Err(m) => Err(ErrorView::Config(UNPARSABLE_ANSWER@ + m)),
        }
    }
}

/// The document that the outcome of a request to `endpoint` carries; a
/// failed request keeps its error.
pub open spec fn gitlab_answer(
    base: Seq<char>,
    endpoint: Seq<char>,
    outcome: Result<ApiResponse, ErrorView>,
) -> Result<Json, ErrorView> {
    match outcome {
        Err(e) => Err(e),
        Ok(resp) => gitlab_document(base, gitlab_url(base, endpoint), resp.status, resp.body@),
    }
}

/// The endpoint that lists projects.
pub open spec fn projects_endpoint() -> Seq<char> {
    "/projects?per_page=100"@
}

/// The endpoint that lists a project's pipelines.
pub open spec fn pipelines_endpoint(project_id: u32) -> Seq<char> {
    "/projects/"@ + decimal(project_id as nat) + "/pipelines?per_page=100"@
}

/// The endpoint that lists a project's webhooks.
pub open spec fn webhooks_endpoint(project_id: u32) -> Seq<char> {
    "/projects/"@ + decimal(project_id as nat) + "/hooks"@
}

/// The endpoint that starts a pipeline of a project.
pub open spec fn trigger_endpoint(project_id: u32) -> Seq<char> {
    "/projects/"@ + decimal(project_id as nat) + "/trigger/pipeline"@
}

/// The endpoint that names the token's user.
pub open spec fn user_endpoint() -> Seq<char> {
    "/user"@
}

/// What a list of projects lacks when the answer has another shape.
pub const PROJECTS_FAULT: &'static str = "Failed to parse response: error decoding response body: expected a list of projects";

/// What a list of pipelines lacks when the answer has another shape.
pub const PIPELINES_FAULT: &'static str = "Failed to parse response: error decoding response body: expected a list of pipelines";

/// What a list of webhooks lacks when the answer has another shape.
pub const WEBHOOKS_FAULT: &'static str = "Failed to parse response: error decoding response body: expected a list of webhooks";

/// What a pipeline lacks when the answer has another shape.
pub const PIPELINE_FAULT: &'static str = "Failed to parse response: error decoding response body: expected a pipeline";

/// Whether a request is the token-authenticated request that the adapter makes.
pub open spec fn token_request(r: ApiRequest, method: Method, url: Seq<char>, token: Seq<char>) -> bool {
    &&& r.method == method
    &&& r.url@ == url
    &&& r.auth matches Auth::Header { name, value }
    &&& name@ == "PRIVATE-TOKEN"@
    &&& value@ == token
}

/// The adapter of one instance of the platform.
pub struct GitLabAdapter {
    base_url: String,
    token: String,
}

impl GitLabAdapter {
    /// The base address, without trailing slashes.
    pub closed spec fn base(&self) -> Seq<char> {
        self.base_url@
    }

    /// The personal access token.
    pub closed spec fn token_text(&self) -> Seq<char> {
        self.token@
    }

    /// An adapter for the instance at `base_url`, authenticated by `token`.
    pub fn new(base_url: String, token: String) -> (r: GitLabAdapter)
        ensures
            r.base() == trim_end_char(base_url@, '/'),
            r.token_text() == token@,
    {
        GitLabAdapter { base_url: trim_end_slashes(base_url.as_str()), token }
    }

    /// The base address, without trailing slashes.
    pub fn base_text(&self) -> (r: &str)
        ensures
            r@ == self.base(),
    {
        self.base_url.as_str()
    }

    /// The full address of an API endpoint.
    pub fn api_url(&self, endpoint: &str) -> (r: String)
        ensures
            r@ == gitlab_url(self.base(), endpoint@),
    {
        let mut url = self.base_url.clone();
        url.append("/api/v4");
        url.append(endpoint);
        url
    }

    fn request(&self, method: Method, endpoint: &str, json_body: Option<String>) -> (r: ApiRequest)
        ensures
            token_request(r, method, gitlab_url(self.base(), endpoint@), self.token_text()),
            r.json_body == json_body,
    {
        ApiRequest {
            method,
            url: self.api_url(endpoint),
            auth: Auth::Header { name: String::from_str("PRIVATE-TOKEN"), value: self.token.clone() },
            json_body,
        }
    }

    /// The request that lists the projects.
    pub fn projects_request(&self) -> (r: ApiRequest)
        ensures
            token_request(r, Method::Get, gitlab_url(self.base(), projects_endpoint()), self.token_text()),
            r.json_body is None,
    {
        self.request(Method::Get, "/projects?per_page=100", None)
    }

    /// The request that lists a project's pipelines.
    pub fn pipelines_request(&self, project_id: u32) -> (r: ApiRequest)
        ensures
            token_request(r, Method::Get, gitlab_url(self.base(), pipelines_endpoint(project_id)), self.token_text()),
            r.json_body is None,
    {
        let endpoint = project_endpoint(project_id, "/pipelines?per_page=100");
        self.request(Method::Get, endpoint.as_str(), None)
    }

    /// The request that lists a project's webhooks.
    pub fn webhooks_request(&self, project_id: u32) -> (r: ApiRequest)
        ensures
            token_request(r, Method::Get, gitlab_url(self.base(), webhooks_endpoint(project_id)), self.token_text()),
            r.json_body is None,
    {
        let endpoint = project_endpoint(project_id, "/hooks");
        self.request(Method::Get, endpoint.as_str(), None)
    }

    /// The request that starts a pipeline of a project on a branch or tag.
    pub fn trigger_pipeline_request(&self, project_id: u32, git_ref: &str) -> (r: ApiRequest)
        ensures
            token_request(r, Method::Post, gitlab_url(self.base(), trigger_endpoint(project_id)), self.token_text()),
            r.json_body matches Some(b) && b@ == "{\"ref\":"@ + json_quoted(git_ref@) + "}"@,
    {
        let endpoint = project_endpoint(project_id, "/trigger/pipeline");
        let mut body = String::from_str("{\"ref\":");
        let quoted = quote_json(git_ref);
        body.append(quoted.as_str());
        body.append("}");
        self.request(Method::Post, endpoint.as_str(), Some(body))
    }

    /// The request that checks the connection: it names the token's user.
    pub fn connection_request(&self) -> (r: ApiRequest)
        ensures
            token_request(r, Method::Get, gitlab_url(self.base(), user_endpoint()), self.token_text()),
            r.json_body is None,
    {
        self.request(Method::Get, "/user", None)
    }

    /// The document of an answer to a request to `endpoint`.
    pub fn read_document(&self, endpoint: &str, response: &ApiResponse) -> (r: Result<Json, IntegrationError>)
        ensures
            result_view(r) == gitlab_document(self.base(), gitlab_url(self.base(), endpoint@), response.status, response.body@),
    {
        let body = response.body.as_str();
        if blank(body) {
            let mut message = String::from_str(EMPTY_ANSWER);
            message.append(self.base_url.as_str());
            message.append("\nFull API URL: ");
            let url = self.api_url(endpoint);
            message.append(url.as_str());
            return Err(IntegrationError::ConfigError { message });
        }
        let trimmed = trim_start(body);
        if starts_with(trimmed.as_str(), "<!DOCTYPE") || starts_with(trimmed.as_str(), "<html")
            || starts_with(trimmed.as_str(), "<HTML") {
            let mut message = String::from_str(HTML_ANSWER);
            message.append(self.base_url.as_str());
            message.append("\nFull API URL: ");
            let url = self.api_url(endpoint);
            message.append(url.as_str());
            return Err(IntegrationError::ConfigError { message });
        }
        if !(200 <= response.status && response.status <= 299) {
            return Err(status_to_error(response.status, Some(response.body.clone())));
        }
        match parse_json(body) {
            Ok(j) => Ok(j),
            Err(m) => {
                let mut message = String::from_str(UNPARSABLE_ANSWER);
                message.append(m.as_str());
                Err(IntegrationError::ConfigError { message })
            },
        }
    }

    /// The document of the outcome of a request to `endpoint`.
    fn answer(&self, endpoint: &str, outcome: Result<ApiResponse, IntegrationError>) -> (r: Result<Json, IntegrationError>)
        ensures
            result_view(r) == gitlab_answer(self.base(), endpoint@, outcome_view(outcome)),
    {
        match outcome {
            Err(e) => Err(e),
            Ok(resp) => self.read_document(endpoint, &resp),
        }
    }

    /// The projects that the outcome of the projects request lists.
    pub fn read_projects(&self, outcome: Result<ApiResponse, IntegrationError>) -> (r: Result<Vec<GitLabProject>, IntegrationError>)
        ensures
            agrees_list(r, list_result(
                gitlab_answer(self.base(), projects_endpoint(), outcome_view(outcome)),
                |j: Json| project_spec(j),
                PROJECTS_FAULT@,
            )),
    {
        let doc = self.answer("/projects?per_page=100", outcome);
        list_from(doc, project_of, Ghost(|j: Json| project_spec(j)), PROJECTS_FAULT)
    }

    /// The pipelines that the outcome of a project's pipelines request lists.
    pub fn read_pipelines(&self, project_id: u32, outcome: Result<ApiResponse, IntegrationError>) -> (r: Result<Vec<GitLabPipeline>, IntegrationError>)
        ensures
            agrees_list(r, list_result(
                gitlab_answer(self.base(), pipelines_endpoint(project_id), outcome_view(outcome)),
                |j: Json| pipeline_spec(j),
                PIPELINES_FAULT@,
            )),
    {
        let endpoint = project_endpoint(project_id, "/pipelines?per_page=100");
        let doc = self.answer(endpoint.as_str(), outcome);
        list_from(doc, pipeline_of, Ghost(|j: Json| pipeline_spec(j)), PIPELINES_FAULT)
    }

    /// The webhooks that the outcome of a project's webhooks request lists.
    pub fn read_webhooks(&self, project_id: u32, outcome: Result<ApiResponse, IntegrationError>) -> (r: Result<Vec<GitLabWebhook>, IntegrationError>)
        ensures
            webhooks_agree(gitlab_answer(self.base(), webhooks_endpoint(project_id), outcome_view(outcome)), r),
    {
        let endpoint = project_endpoint(project_id, "/hooks");
        match self.answer(endpoint.as_str(), outcome) {
            Err(e) => Err(e),
            Ok(doc) => match doc.items() {
                None => Err(IntegrationError::config(WEBHOOKS_FAULT)),
                Some(items) => {
                    let mut out: Vec<GitLabWebhook> = Vec::new();
                    let mut i: usize = 0;
                    while i < items.len()
                        invariant
                            gitlab_answer(self.base(), webhooks_endpoint(project_id), outcome_view(outcome))
                                == Ok::<Json, ErrorView>(doc),
                            array_spec(Some(doc)) == Some(items@),
                            i <= items@.len(),
                            out@.len() == i,
                            forall|k: int| 0 <= k < i ==> webhook_decodes(#[trigger] items@[k]),
                            forall|k: int| 0 <= k < i ==> webhook_fits(#[trigger] items@[k], out@[k]),
                        decreases items@.len() - i,
                    {
                        match webhook_of(&items[i]) {
                            Some(w) => out.push(w),
                            None => {
                                assert(!webhook_decodes(items@[i as int]));
                                return Err(IntegrationError::config(WEBHOOKS_FAULT));
                            },
                        }
                        i = i + 1;
                    }
                    Ok(out)
                },
            },
        }
    }

    /// The pipeline that the outcome of a trigger request describes.
    pub fn read_triggered_pipeline(&self, project_id: u32, outcome: Result<ApiResponse, IntegrationError>) -> (r: Result<GitLabPipeline, IntegrationError>)
        ensures
            match gitlab_answer(self.base(), trigger_endpoint(project_id), outcome_view(outcome)) {
                Err(e) => r matches Err(f) && f@ == e,
                Ok(j) => match pipeline_spec(j) {
                    Some(p) => r == Ok::<GitLabPipeline, IntegrationError>(p),
                    None => r matches Err(f) && f@ == ErrorView::Config(PIPELINE_FAULT@),
                },
            },
    {
        let endpoint = project_endpoint(project_id, "/trigger/pipeline");
        match self.answer(endpoint.as_str(), outcome) {
            Err(e) => Err(e),
            Ok(j) => match pipeline_of(&j) {
                Some(p) => Ok(p),
                None => Err(IntegrationError::config(PIPELINE_FAULT)),
            },
        }
    }

    /// Whether the outcome of the connection request proves the connection:
    /// the answer must be a JSON document with a success status.
    pub fn check_connection(&self, outcome: Result<ApiResponse, IntegrationError>) -> (r: Result<(), IntegrationError>)
        ensures
            match gitlab_answer(self.base(), user_endpoint(), outcome_view(outcome)) {
                Err(e) => r matches Err(f) && f@ == e,
                Ok(_) => r is Ok,
            },
    {
        match self.answer("/user", outcome) {
            Err(e) => Err(e),
            Ok(_) => Ok(()),
        }
    }
}

/// `/projects/<id>` followed by `rest`.
fn project_endpoint(project_id: u32, rest: &str) -> (r: String)
    ensures
        r@ == "/projects/"@ + decimal(project_id as nat) + rest@,
{
    let mut e = String::from_str("/projects/");
    let digits = decimal_text(project_id as u64);
    e.append(digits.as_str());
    e.append(rest);
    e
}

} // verus!

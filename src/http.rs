//! Requests as the adapters describe them, and the retry policy that the
//! executor follows while it sends them.
use vstd::prelude::*;
use crate::errors::{
    ErrorView, IntegrationError, TransportFailure, status_error, status_to_error,
    transport_error, transport_retryable,
};
use crate::json::{Json, array_spec, decode_items, decoded, decodes_all, json_parse, parse_json};
use crate::text::{decimal, decimal_text};

verus! {

/// The HTTP method of a request.
#[derive(Debug, Clone, Copy, PartialEq, Eq)]
pub enum Method {
    Get,
    Post,
}

/// How a request proves who sends it.
#[derive(Debug, Clone, PartialEq, Eq)]
pub enum Auth {
    /// A header carrying a token.
    Header { name: String, value: String },
    /// HTTP basic authentication.
    Basic { username: String, password: String },
}

/// A request to an outside service.
#[derive(Debug, Clone, PartialEq, Eq)]
pub struct ApiRequest {
    pub method: Method,
    pub url: String,
    pub auth: Auth,
    /// A JSON body, for requests that carry one.
    pub json_body: Option<String>,
}

/// An answer of an outside service: its status and its body as text.
#[derive(Debug, Clone, PartialEq, Eq)]
pub struct ApiResponse {
    pub status: u16,
    pub body: String,
}

/// Whether a status reports success (2xx).
pub open spec fn is_success(status: u16) -> bool {
    200 <= status <= 299
}

/// The most retries after the first attempt.
pub const MAX_RETRIES: u32 = 3;

/// The wait before the first retry, in milliseconds.
pub const INITIAL_DELAY_MS: u64 = 500;

/// The wait before retry number `n + 1`: 500 ms, doubled for each retry before it.
pub open spec fn backoff(n: nat) -> nat
    decreases n,
{
    if n == 0 {
        INITIAL_DELAY_MS as nat
    } else {
        2 * backoff((n - 1) as nat)
    }
}

/// What one attempt to send a request came to.
#[derive(Debug, Clone, PartialEq, Eq)]
pub enum Outcome {
    /// The service answered with this status.
    Answered { status: u16 },
    /// The request failed below HTTP.
    Failed { failure: TransportFailure },
}

/// What the executor does after an attempt.
#[derive(Debug, Clone, PartialEq, Eq)]
pub enum RetryStep {
    /// Hand the answer to the caller.
    Deliver,
    /// Wait this long, then send the request again.
    Retry { delay_ms: u64 },
    /// Give up with this error.
    Fail { error: IntegrationError },
}

/// A step, with its error as a view.
pub enum StepView {
    Deliver,
    Retry(nat),
    Fail(ErrorView),
}

impl View for RetryStep {
    type V = StepView;

    open spec fn view(&self) -> StepView {
        match self {
            RetryStep::Deliver => StepView::Deliver,
            RetryStep::Retry { delay_ms } => StepView::Retry(*delay_ms as nat),
            RetryStep::Fail { error } => StepView::Fail(error@),
        }
    }
}

/// The message of the error for a refused authentication (401).
pub const UNAUTHORIZED: &'static str = "Authentication failed";

/// The message of the error for a forbidden request (403): the credentials
/// hold, but lack the permission.
pub const FORBIDDEN: &'static str = "Access denied";

/// The message attached to an error status.
pub open spec fn failure_message(status: u16) -> Seq<char> {
    if status == 401 {
        UNAUTHORIZED@
    } else if status == 403 {
        FORBIDDEN@
    } else if 400 <= status <= 499 {
        "Client error: "@ + decimal(status as nat)
    } else if 500 <= status <= 599 {
        "Server error: "@ + decimal(status as nat)
    } else {
        "HTTP error: "@ + decimal(status as nat)
    }
}

/// Whether an attempt's outcome may be retried: a timeout answer (408), a
/// server error (5xx), or a transport failure of the retryable kinds.
pub open spec fn outcome_retryable(o: Outcome) -> bool {
    match o {
        Outcome::Answered { status } => status == 408 || (500 <= status <= 599),
        Outcome::Failed { failure } => transport_retryable(failure),
    }
}

/// The error that an unsuccessful outcome stands for.
pub open spec fn outcome_error(o: Outcome) -> ErrorView {
    match o {
        Outcome::Answered { status } => status_error(status, failure_message(status)),
        Outcome::Failed { failure } => transport_error(failure),
    }
}

/// The policy's decision after `attempts` retries so far: deliver a success;
/// retry a retryable outcome while retries remain and the request can be
/// replayed; else fail with the outcome's error.
pub open spec fn decide(attempts: nat, replayable: bool, o: Outcome) -> StepView {
    if o matches Outcome::Answered { status } && is_success(status) {
        StepView::Deliver
    } else if outcome_retryable(o) && replayable && attempts < MAX_RETRIES {
        StepView::Retry(backoff(attempts))
    } else {
        StepView::Fail(outcome_error(o))
    }
}

/// The error for an error status, with the policy's message.
fn answered_error(status: u16) -> (r: IntegrationError)
    ensures
        r@ == status_error(status, failure_message(status)),
{
    let mut text;
    if status == 401 {
        text = String::from_str(UNAUTHORIZED);
    } else if status == 403 {
        text = String::from_str(FORBIDDEN);
    } else {
        if 400 <= status && status <= 499 {
            text = String::from_str("Client error: ");
        } else if 500 <= status && status <= 599 {
            text = String::from_str("Server error: ");
        } else {
            text = String::from_str("HTTP error: ");
        }
        let digits = decimal_text(status as u64);
        text.append(digits.as_str());
    }
    status_to_error(status, Some(text))
}

/// The retry state of one request: how many retries it has had.
pub struct RetryPolicy {
    retries: u32,
    replayable: bool,
}

impl RetryPolicy {
    /// The retries made so far.
    pub closed spec fn retries_made(&self) -> nat {
        self.retries as nat
    }

    /// Whether the request can be sent more than once.
    pub closed spec fn can_replay(&self) -> bool {
        self.replayable
    }

    /// The state before the first attempt. A request whose body cannot be
    /// replayed is sent exactly once.
    pub fn new(replayable: bool) -> (r: RetryPolicy)
        ensures
            r.retries_made() == 0,
            r.can_replay() == replayable,
    {
        RetryPolicy { retries: 0, replayable }
    }

    /// The wait before the next retry.
    fn delay(&self) -> (r: u64)
        requires
            self.retries < MAX_RETRIES,
        ensures
            r as nat == backoff(self.retries as nat),
    {
        let mut d: u64 = INITIAL_DELAY_MS;
        let mut k: u32 = 0;
        while k < self.retries
            invariant
                k <= self.retries < MAX_RETRIES,
                d as nat == backoff(k as nat),
                d <= 2000,
            decreases self.retries - k,
        {
            proof {
                reveal_with_fuel(backoff, 3);
            }
            d = d * 2;
            k = k + 1;
        }
        d
    }

    /// Decides what follows an attempt with the given outcome.
    pub fn next_step(&mut self, outcome: &Outcome) -> (r: RetryStep)
        ensures
            r@ == decide(old(self).retries_made(), old(self).can_replay(), *outcome),
            final(self).can_replay() == old(self).can_replay(),
            final(self).retries_made() == if r is Retry {
                old(self).retries_made() + 1
            } else {
                old(self).retries_made()
            },
    {
        let retryable = match outcome {
            Outcome::Answered { status } => {
                if 200 <= *status && *status <= 299 {
                    return RetryStep::Deliver;
                }
                *status == 408 || (500 <= *status && *status <= 599)
            },
            Outcome::Failed { failure } => failure.is_retryable(),
        };
        if retryable && self.replayable && self.retries < MAX_RETRIES {
            let delay_ms = self.delay();
            self.retries = self.retries + 1;
            RetryStep::Retry { delay_ms }
        } else {
            let error = match outcome {
                Outcome::Answered { status } => answered_error(*status),
                Outcome::Failed { failure } => failure.to_error(),
            };
            RetryStep::Fail { error }
        }
    }
}

/// A server error on every attempt: the policy retries exactly three times,
/// waiting 500, 1000 and 2000 ms, and the fourth answer surfaces as an API
/// error that carries the status.
pub proof fn law_server_errors_retried_three_times(status: u16)
    requires
        500 <= status <= 599,
    ensures
        decide(0, true, Outcome::Answered { status }) == StepView::Retry(500),
        decide(1, true, Outcome::Answered { status }) == StepView::Retry(1000),
        decide(2, true, Outcome::Answered { status }) == StepView::Retry(2000),
        decide(3, true, Outcome::Answered { status }) == StepView::Fail(
            ErrorView::Api(status, "Server error: "@ + decimal(status as nat)),
        ),
{
    reveal_with_fuel(backoff, 3);
}

/// Each wait before a retry is longer than the one before it.
pub proof fn law_backoff_increases(n: nat)
    ensures
        backoff(n) < backoff(n + 1),
    decreases n,
{
    if n > 0 {
        law_backoff_increases((n - 1) as nat);
    }
}

/// No outcome is retried once three retries have been made.
pub proof fn law_at_most_three_retries(attempts: nat, replayable: bool, o: Outcome)
    requires
        attempts >= MAX_RETRIES,
    ensures
        !(decide(attempts, replayable, o) is Retry),
{
}

/// An authentication refusal (401 or 403) is never retried: whatever came
/// before, it fails at once with an authentication error, whose message tells
/// a refused authentication (401) from a forbidden request (403).
pub proof fn law_auth_refusal_fails_at_once(attempts: nat, replayable: bool, status: u16)
    requires
        status == 401 || status == 403,
    ensures
        status == 401 ==> decide(attempts, replayable, Outcome::Answered { status }) == StepView::Fail(
            ErrorView::Auth(UNAUTHORIZED@),
        ),
        status == 403 ==> decide(attempts, replayable, Outcome::Answered { status }) == StepView::Fail(
            ErrorView::Auth(FORBIDDEN@),
        ),
        UNAUTHORIZED@ != FORBIDDEN@,
{
    reveal_strlit("Authentication failed");
    reveal_strlit("Access denied");
    assert(UNAUTHORIZED@[1] != FORBIDDEN@[1]);
}

/// The document that an answer carries: an error status becomes its error
/// (with the body as message), and a body that is no JSON a configuration error.
pub open spec fn json_of_answer(status: u16, body: Seq<char>) -> Result<Json, ErrorView> {
    if !is_success(status) {
        Err(status_error(status, body))
    } else {
        match json_parse(body) {
            Ok(j) => Ok(j),
            Err(m) => Err(ErrorView::Config("Failed to parse response: "@ + m)),
        }
    }
}

/// The document of an answer, or the error it stands for.
pub fn read_json(response: &ApiResponse) -> (r: Result<Json, IntegrationError>)
    ensures
        match (r, json_of_answer(response.status, response.body@)) {
            (Ok(j), Ok(k)) => j == k,
            (Err(e), Err(f)) => e@ == f,
            _ => false,
        },
{
    if !(200 <= response.status && response.status <= 299) {
        return Err(status_to_error(response.status, Some(response.body.clone())));
    }
    match parse_json(response.body.as_str()) {
        Ok(j) => Ok(j),
        Err(m) => {
            let mut t = String::from_str("Failed to parse response: ");
            t.append(m.as_str());
            Err(IntegrationError::ConfigError { message: t })
        },
    }
}

/// An outcome of the executor, with its error as a view.
pub open spec fn outcome_view(outcome: Result<ApiResponse, IntegrationError>) -> Result<ApiResponse, ErrorView> {
    match outcome {
        Ok(resp) => Ok(resp),
        Err(e) => Err(e@),
    }
}

/// A result of the library, with its error as a view.
pub open spec fn result_view<T>(r: Result<T, IntegrationError>) -> Result<T, ErrorView> {
    match r {
        Ok(v) => Ok(v),
        Err(e) => Err(e@),
    }
}

/// Whether a list result agrees with its description.
pub open spec fn agrees_list<T>(r: Result<Vec<T>, IntegrationError>, s: Result<Seq<T>, ErrorView>) -> bool {
    match (r, s) {
        (Ok(v), Ok(w)) => v@ == w,
        (Err(e), Err(f)) => e@ == f,
        _ => false,
    }
}

/// The records that a document lists: the items of an array, each decoded by
/// `f`; `fault` names what a document of another shape lacks.
pub open spec fn list_result<T>(
    doc: Result<Json, ErrorView>,
    f: spec_fn(Json) -> Option<T>,
    fault: Seq<char>,
) -> Result<Seq<T>, ErrorView> {
    match doc {
        Err(e) => Err(e),
        Ok(j) => match array_spec(Some(j)) {
            Some(items) => if decodes_all(items, f) {
                Ok(decoded(items, f))
            } else {
                Err(ErrorView::Config(fault))
            },
            None => Err(ErrorView::Config(fault)),
        },
    }
}

/// The records that a document lists, decoded by `f`.
pub(crate) fn list_from<T, F: Fn(&Json) -> Option<T>>(
    doc: Result<Json, IntegrationError>,
    f: F,
    Ghost(spec_f): Ghost<spec_fn(Json) -> Option<T>>,
    fault: &str,
) -> (r: Result<Vec<T>, IntegrationError>)
    requires
        forall|j: &Json| f.requires((j,)),
        forall|j: &Json, o: Option<T>| f.ensures((j,), o) ==> o == spec_f(*j),
    ensures
        agrees_list(r, list_result(result_view(doc), spec_f, fault@)),
{
    match doc {
        Err(e) => Err(e),
        Ok(j) => match j.items() {
            Some(items) => match decode_items(items, f, Ghost(spec_f)) {
                Some(v) => Ok(v),
                None => Err(IntegrationError::config(fault)),
            },
            None => Err(IntegrationError::config(fault)),
        },
    }
}

/// The document that the outcome of a request carries; a failed request
/// keeps its error.
pub open spec fn answer_document(outcome: Result<ApiResponse, ErrorView>) -> Result<Json, ErrorView> {
    match outcome {
        Err(e) => Err(e),
        Ok(resp) => json_of_answer(resp.status, resp.body@),
    }
}

/// The document that the outcome of a request carries.
pub fn answer_json(outcome: Result<ApiResponse, IntegrationError>) -> (r: Result<Json, IntegrationError>)
    ensures
        result_view(r) == answer_document(outcome_view(outcome)),
{
    match outcome {
        Err(e) => Err(e),
        Ok(resp) => read_json(&resp),
    }
}

/// Whether an answer to a request without a result reports success; an
/// error status becomes its error (with the body as message).
pub open spec fn answer_accepted(outcome: Result<ApiResponse, ErrorView>) -> Result<(), ErrorView> {
    match outcome {
        Err(e) => Err(e),
        Ok(resp) => if is_success(resp.status) {
            Ok(())
        } else {
            Err(status_error(resp.status, resp.body@))
        },
    }
}

/// Whether the outcome of a request without a result reports success.
pub fn accept_answer(outcome: Result<ApiResponse, IntegrationError>) -> (r: Result<(), IntegrationError>)
    ensures
        result_view(r) == answer_accepted(outcome_view(outcome)),
{
    match outcome {
        Err(e) => Err(e),
        Ok(resp) => if 200 <= resp.status && resp.status <= 299 {
            Ok(())
        } else {
            Err(status_to_error(resp.status, Some(resp.body)))
        },
    }
}

} // verus!

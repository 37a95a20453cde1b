//! The closed error taxonomy that every adapter reduces its failures to.
use vstd::prelude::*;
use crate::text::{decimal, decimal_text};

verus! {

/// A classified failure of an integration operation.
#[derive(Debug, Clone, PartialEq, Eq)]
pub enum IntegrationError {
    /// The service could not be reached (connection failure, timeout, ...).
    NetworkError { message: String },
    /// The credentials were refused.
    AuthError { message: String },
    /// The service answered with an error status.
    ApiError { status: u16, message: String },
    /// The configuration or the service's answer does not fit what was expected.
    ConfigError { message: String },
    /// The resource does not exist.
    NotFound,
}

/// What an error is, with its texts as character sequences.
pub enum ErrorView {
    Network(Seq<char>),
    Auth(Seq<char>),
    Api(u16, Seq<char>),
    Config(Seq<char>),
    NotFound,
}

impl View for IntegrationError {
    type V = ErrorView;

    open spec fn view(&self) -> ErrorView {
        match self {
            IntegrationError::NetworkError { message } => ErrorView::Network(message@),
            IntegrationError::AuthError { message } => ErrorView::Auth(message@),
            IntegrationError::ApiError { status, message } => ErrorView::Api(*status, message@),
            IntegrationError::ConfigError { message } => ErrorView::Config(message@),
            IntegrationError::NotFound => ErrorView::NotFound,
        }
    }
}

/// The message used when a status comes without one: `HTTP <status>`.
pub open spec fn default_status_message(status: u16) -> Seq<char> {
    "HTTP "@ + decimal(status as nat)
}

/// The error for an HTTP status: 401 and 403 refuse the credentials, 404 is a
/// missing resource, and every other status is an API error carrying it.
pub open spec fn status_error(status: u16, message: Seq<char>) -> ErrorView {
    if status == 401 || status == 403 {
        ErrorView::Auth(message)
    } else if status == 404 {
        ErrorView::NotFound
    } else {
        ErrorView::Api(status, message)
    }
}

/// Every status from 100 to 599 gets exactly one kind of error: 401 and 403
/// refuse the credentials, 404 is a missing resource, and every other 4xx or
/// 5xx status is an API error carrying that status and the message.
pub proof fn law_status_classification(status: u16, message: Seq<char>)
    requires
        100 <= status <= 599,
    ensures
        (status == 401 || status == 403) <==> status_error(status, message) is Auth,
        status == 404 <==> status_error(status, message) is NotFound,
        (400 <= status <= 599 && status != 401 && status != 403 && status != 404)
            ==> status_error(status, message) == ErrorView::Api(status, message),
        status_error(status, message) is Auth || status_error(status, message) is NotFound
            || status_error(status, message) == ErrorView::Api(status, message),
{
}

/// The message that `status_to_error` attaches: the given one, else the default.
pub open spec fn status_message(status: u16, message: Option<String>) -> Seq<char> {
    match message {
        Some(m) => m@,
        None => default_status_message(status),
    }
}

/// Converts an HTTP status code, with an optional message, to its error.
pub fn status_to_error(status: u16, message: Option<String>) -> (r: IntegrationError)
    ensures
        r@ == status_error(status, status_message(status, message)),
{
    let text = match message {
        Some(m) => m,
        None => {
            let mut t = String::from_str("HTTP ");
            let digits = decimal_text(status as u64);
            t.append(digits.as_str());
            t
        },
    };
    if status == 401 || status == 403 {
        IntegrationError::AuthError { message: text }
    } else if status == 404 {
        IntegrationError::NotFound
    } else {
        IntegrationError::ApiError { status, message: text }
    }
}

/// The human-readable text of an error.
pub open spec fn error_text(e: ErrorView) -> Seq<char> {
    match e {
        ErrorView::Network(m) => "Network error: "@ + m,
        ErrorView::Auth(m) => "Authentication error: "@ + m,
        ErrorView::Api(s, m) => "API error (status "@ + decimal(s as nat) + "): "@ + m,
        ErrorView::Config(m) => "Configuration error: "@ + m,
        ErrorView::NotFound => "Resource not found"@,
    }
}

impl IntegrationError {
    /// The human-readable text of this error.
    pub fn to_string(&self) -> (r: String)
        ensures
            r@ == error_text(self@),
    {
        match self {
            IntegrationError::NetworkError { message } => {
                let mut t = String::from_str("Network error: ");
                t.append(message.as_str());
                t
            },
            IntegrationError::AuthError { message } => {
                let mut t = String::from_str("Authentication error: ");
                t.append(message.as_str());
                t
            },
            IntegrationError::ApiError { status, message } => {
                let mut t = String::from_str("API error (status ");
                let digits = decimal_text(*status as u64);
                t.append(digits.as_str());
                t.append("): ");
                t.append(message.as_str());
                t
            },
            IntegrationError::ConfigError { message } => {
                let mut t = String::from_str("Configuration error: ");
                t.append(message.as_str());
                t
            },
            IntegrationError::NotFound => String::from_str("Resource not found"),
        }
    }

    /// A configuration error with the given message.
    pub fn config(message: &str) -> (r: IntegrationError)
        ensures
            r@ == ErrorView::Config(message@),
    {
        IntegrationError::ConfigError { message: String::from_str(message) }
    }
}

/// How a request failed below HTTP, as the transport reports it.
#[derive(Debug, Clone, PartialEq, Eq)]
pub enum TransportFailure {
    /// The request timed out.
    Timeout,
    /// No connection could be made.
    Connect,
    /// The request could not be sent; the text describes why.
    Request { detail: String },
    /// Any other transport failure (a body that could not be decoded, ...).
    Other { detail: String },
}

/// Whether a transport failure is worth another attempt.
pub open spec fn transport_retryable(f: TransportFailure) -> bool {
    match f {
        TransportFailure::Other { .. } => false,
        _ => true,
    }
}

/// The error that a transport failure becomes.
pub open spec fn transport_error(f: TransportFailure) -> ErrorView {
    match f {
        TransportFailure::Timeout => ErrorView::Network("Request timed out"@),
        TransportFailure::Connect => ErrorView::Network("Failed to connect to server"@),
        TransportFailure::Request { detail } => ErrorView::Network("Network error: "@ + detail@),
        TransportFailure::Other { detail } => ErrorView::Network("Network error: "@ + detail@),
    }
}

impl TransportFailure {
    /// Whether this failure is worth another attempt.
    pub fn is_retryable(&self) -> (r: bool)
        ensures
            r == transport_retryable(*self),
    {
        match self {
            TransportFailure::Other { .. } => false,
            _ => true,
        }
    }

    /// Converts this failure to a network error.
    pub fn to_error(&self) -> (r: IntegrationError)
        ensures
            r@ == transport_error(*self),
    {
        match self {
            TransportFailure::Timeout => IntegrationError::NetworkError {
                message: String::from_str("Request timed out"),
            },
            TransportFailure::Connect => IntegrationError::NetworkError {
                message: String::from_str("Failed to connect to server"),
            },
            TransportFailure::Request { detail } | TransportFailure::Other { detail } => {
                let mut t = String::from_str("Network error: ");
                t.append(detail.as_str());
                IntegrationError::NetworkError { message: t }
            },
        }
    }
}

} // verus!

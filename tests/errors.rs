use ops_flow::errors::{status_to_error, IntegrationError, TransportFailure};
use ops_flow::http::{Outcome, RetryPolicy, RetryStep};

#[test]
fn test_network_error_display() {
    let err = IntegrationError::NetworkError {
        message: "Connection refused".to_string(),
    };
    assert_eq!(err.to_string(), "Network error: Connection refused");
}

#[test]
fn test_auth_error_display() {
    let err = IntegrationError::AuthError {
        message: "Invalid token".to_string(),
    };
    assert_eq!(err.to_string(), "Authentication error: Invalid token");
}

#[test]
fn test_api_error_display() {
    let err = IntegrationError::ApiError {
        status: 404,
        message: "Not found".to_string(),
    };
    assert_eq!(err.to_string(), "API error (status 404): Not found");
}

#[test]
fn test_status_to_error_401() {
    let err = status_to_error(401, Some("Unauthorized".to_string()));
    match err {
        IntegrationError::AuthError { message } => {
            assert_eq!(message, "Unauthorized");
        }
        _ => panic!("Expected AuthError"),
    }
}

#[test]
fn test_status_to_error_404() {
    let err = status_to_error(404, None);
    match err {
        IntegrationError::NotFound => {}
        _ => panic!("Expected NotFound"),
    }
}

#[test]
fn test_status_to_error_500() {
    let err = status_to_error(500, Some("Internal server error".to_string()));
    match err {
        IntegrationError::ApiError { status, message } => {
            assert_eq!(status, 500);
            assert_eq!(message, "Internal server error");
        }
        _ => panic!("Expected ApiError"),
    }
}

#[test]
fn config_and_not_found_display() {
    let err = IntegrationError::ConfigError { message: "bad url".to_string() };
    assert_eq!(err.to_string(), "Configuration error: bad url");
    assert_eq!(IntegrationError::NotFound.to_string(), "Resource not found");
}

#[test]
fn status_without_message_names_the_status() {
    assert_eq!(
        status_to_error(503, None),
        IntegrationError::ApiError { status: 503, message: "HTTP 503".to_string() }
    );
    assert_eq!(
        status_to_error(403, None),
        IntegrationError::AuthError { message: "HTTP 403".to_string() }
    );
}

#[test]
fn every_status_gets_its_kind() {
    for status in 100u16..=599 {
        let err = status_to_error(status, Some("m".to_string()));
        match status {
            401 | 403 => assert_eq!(err, IntegrationError::AuthError { message: "m".to_string() }),
            404 => assert_eq!(err, IntegrationError::NotFound),
            _ => assert_eq!(err, IntegrationError::ApiError { status, message: "m".to_string() }),
        }
    }
    for status in [400u16, 401, 403, 404, 408, 429, 500, 503] {
        assert_eq!(status_to_error(status, None), status_to_error(status, None));
    }
}

#[test]
fn transport_failures_become_network_errors() {
    assert_eq!(
        TransportFailure::Timeout.to_error(),
        IntegrationError::NetworkError { message: "Request timed out".to_string() }
    );
    assert_eq!(
        TransportFailure::Connect.to_error(),
        IntegrationError::NetworkError { message: "Failed to connect to server".to_string() }
    );
    let other = TransportFailure::Other { detail: "bad body".to_string() };
    assert_eq!(
        other.to_error(),
        IntegrationError::NetworkError { message: "Network error: bad body".to_string() }
    );
    assert!(!other.is_retryable());
    assert!(TransportFailure::Timeout.is_retryable());
}

#[test]
fn server_errors_are_retried_three_times() {
    let mut policy = RetryPolicy::new(true);
    let outcome = Outcome::Answered { status: 503 };
    let mut delays = Vec::new();
    loop {
        match policy.next_step(&outcome) {
            RetryStep::Retry { delay_ms } => delays.push(delay_ms),
            RetryStep::Fail { error } => {
                assert_eq!(
                    error,
                    IntegrationError::ApiError { status: 503, message: "Server error: 503".to_string() }
                );
                break;
            }
            RetryStep::Deliver => panic!("a server error is never delivered"),
        }
    }
    assert_eq!(delays, vec![500, 1000, 2000]);
    assert!(delays.windows(2).all(|w| w[0] < w[1]));
}

#[test]
fn refused_credentials_fail_at_once() {
    let mut policy = RetryPolicy::new(true);
    let step = policy.next_step(&Outcome::Answered { status: 401 });
    assert_eq!(
        step,
        RetryStep::Fail {
            error: IntegrationError::AuthError { message: "Authentication failed".to_string() }
        }
    );
}

#[test]
fn forbidden_fails_at_once_with_its_own_message() {
    let mut policy = RetryPolicy::new(true);
    assert_eq!(
        policy.next_step(&Outcome::Answered { status: 403 }),
        RetryStep::Fail {
            error: IntegrationError::AuthError { message: "Access denied".to_string() }
        }
    );
}

#[test]
fn retry_policy_other_outcomes() {
    let mut policy = RetryPolicy::new(true);
    assert_eq!(policy.next_step(&Outcome::Answered { status: 200 }), RetryStep::Deliver);
    assert_eq!(
        policy.next_step(&Outcome::Answered { status: 408 }),
        RetryStep::Retry { delay_ms: 500 }
    );
    assert_eq!(
        policy.next_step(&Outcome::Failed { failure: TransportFailure::Connect }),
        RetryStep::Retry { delay_ms: 1000 }
    );
    assert_eq!(
        policy.next_step(&Outcome::Answered { status: 429 }),
        RetryStep::Fail {
            error: IntegrationError::ApiError { status: 429, message: "Client error: 429".to_string() }
        }
    );
    let mut once = RetryPolicy::new(false);
    assert_eq!(
        once.next_step(&Outcome::Failed { failure: TransportFailure::Timeout }),
        RetryStep::Fail {
            error: IntegrationError::NetworkError { message: "Request timed out".to_string() }
        }
    );
}

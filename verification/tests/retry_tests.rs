use chet::error::ApiError;
use chet::retry::{
    calculate_delay, classify_error, is_retryable, parse_retry_after, RetryConfig, RetryDecision,
    RetryState, SendOutcome,
};

#[test]
fn default_config_values() {
    let config = RetryConfig::default();
    assert_eq!(config.max_retries, 2);
    assert_eq!(config.initial_delay_ms, 1000);
    assert_eq!(config.max_delay_ms, 60_000);
}

#[test]
fn is_retryable_rate_limited() {
    assert!(is_retryable(&ApiError::RateLimited {
        retry_after_ms: None,
    }));
}

#[test]
fn is_retryable_overloaded() {
    assert!(is_retryable(&ApiError::Overloaded));
}

#[test]
fn is_retryable_server_error() {
    assert!(is_retryable(&ApiError::Server {
        status: 500,
        message: "internal error".into(),
    }));
}

#[test]
fn is_retryable_network_error() {
    assert!(is_retryable(&ApiError::Network(
        "connection refused".into()
    )));
}

#[test]
fn is_retryable_timeout() {
    assert!(is_retryable(&ApiError::Timeout));
}

#[test]
fn is_retryable_auth_error() {
    assert!(!is_retryable(&ApiError::Auth {
        message: "invalid key".into(),
    }));
}

#[test]
fn is_retryable_bad_request() {
    assert!(!is_retryable(&ApiError::BadRequest {
        message: "bad input".into(),
    }));
}

#[test]
fn is_retryable_stream_parse() {
    assert!(!is_retryable(&ApiError::StreamParse("bad json".into())));
}

#[test]
fn calculate_delay_respects_retry_after() {
    let config = RetryConfig::default();

    // Server says wait 5 seconds
    let delay = calculate_delay(&config, Some(5000), 1000);
    assert_eq!(delay, 5000);
}

#[test]
fn calculate_delay_retry_after_capped() {
    let config = RetryConfig {
        max_delay_ms: 10_000,
        ..RetryConfig::default()
    };

    // Server says wait 30 seconds, but max is 10 seconds
    let delay = calculate_delay(&config, Some(30_000), 1000);
    assert_eq!(delay, 10_000);
}

#[test]
fn calculate_delay_capped_at_max() {
    let config = RetryConfig {
        max_retries: 10,
        initial_delay_ms: 1000,
        max_delay_ms: 5000,
    };

    // Attempt 5: base = 1000 * 10^5 = way over max
    let delay = calculate_delay(&config, None, 100_000_000);
    assert!(delay <= config.max_delay_ms, "delay={delay}");
    assert_eq!(delay, 5000);
}

#[test]
fn calculate_delay_uses_backoff_without_hint() {
    let config = RetryConfig::default();
    assert_eq!(calculate_delay(&config, None, 1234), 1234);
    assert_eq!(calculate_delay(&config, None, 60_000), 60_000);
    assert_eq!(calculate_delay(&config, None, 60_001), 60_000);
}

#[test]
fn parse_retry_after_integer() {
    assert_eq!(parse_retry_after("5"), Some(5000));
}

#[test]
fn parse_retry_after_float() {
    assert_eq!(parse_retry_after("1.5"), Some(1500));
}

#[test]
fn parse_retry_after_invalid() {
    assert_eq!(parse_retry_after("not-a-number"), None);
}

#[test]
fn parse_retry_after_edge_cases() {
    assert_eq!(parse_retry_after(""), None);
    assert_eq!(parse_retry_after("."), None);
    assert_eq!(parse_retry_after("0"), Some(0));
    assert_eq!(parse_retry_after("0.0015"), Some(1));
    assert_eq!(parse_retry_after(".25"), Some(250));
    assert_eq!(parse_retry_after("2."), Some(2000));
    assert_eq!(parse_retry_after("1.001"), Some(1001));
    assert_eq!(parse_retry_after("1.2.3"), None);
    assert_eq!(parse_retry_after(" 5"), None);
    assert_eq!(parse_retry_after("-5"), None);
    assert_eq!(parse_retry_after("18446744073709551"), Some(18446744073709551000));
    assert_eq!(parse_retry_after("18446744073709552"), Some(u64::MAX));
    assert_eq!(
        parse_retry_after("99999999999999999999999999"),
        Some(u64::MAX)
    );
}

#[test]
fn classify_error_429_with_retry_after() {
    let err = classify_error(429, "{}", Some(3000));
    match err {
        ApiError::RateLimited { retry_after_ms } => {
            assert_eq!(retry_after_ms, Some(3000));
        }
        _ => panic!("Expected RateLimited, got {err:?}"),
    }
}

#[test]
fn classify_error_529() {
    let err = classify_error(529, "{}", None);
    assert!(matches!(err, ApiError::Overloaded));
}

#[test]
fn classify_error_500() {
    let err = classify_error(500, r#"{"error":{"message":"boom"}}"#, None);
    match err {
        ApiError::Server { status, message } => {
            assert_eq!(status, 500);
            assert_eq!(message, "boom");
        }
        _ => panic!("Expected Server, got {err:?}"),
    }
}

#[test]
fn classify_error_401() {
    let err = classify_error(401, r#"{"error":{"message":"invalid key"}}"#, None);
    assert!(matches!(err, ApiError::Auth { .. }));
}

#[test]
fn classify_error_400_and_plain_body() {
    match classify_error(400, "not json at all", None) {
        ApiError::BadRequest { message } => assert_eq!(message, "not json at all"),
        other => panic!("Expected BadRequest, got {other:?}"),
    }
    match classify_error(503, r#"{"error":{"message":7}}"#, None) {
        ApiError::Server { status, message } => {
            assert_eq!(status, 503);
            assert_eq!(message, r#"{"error":{"message":7}}"#);
        }
        other => panic!("Expected Server, got {other:?}"),
    }
    match classify_error(418, r#"{"error":null}"#, None) {
        ApiError::Server { status, message } => {
            assert_eq!(status, 418);
            assert_eq!(message, r#"{"error":null}"#);
        }
        other => panic!("Expected Server, got {other:?}"),
    }
}

fn overloaded() -> SendOutcome {
    SendOutcome::Status {
        status: 529,
        body: "{}".to_string(),
        retry_after_ms: None,
    }
}

#[test]
fn attempts_never_pass_max_retries_plus_one() {
    for max_retries in 0u32..5 {
        let config = RetryConfig {
            max_retries,
            initial_delay_ms: 10,
            max_delay_ms: 100,
        };
        let mut state = RetryState::new(config);
        let mut sends = 0u64;
        loop {
            assert!(state.can_send());
            sends += 1;
            match state.record(overloaded(), 10) {
                RetryDecision::RetryAfter { delay_ms } => assert_eq!(delay_ms, 10),
                RetryDecision::GiveUp(err) => {
                    assert!(matches!(err, ApiError::Overloaded));
                    break;
                }
                RetryDecision::Proceed => panic!("no success was reported"),
            }
        }
        assert_eq!(sends, max_retries as u64 + 1);
        assert_eq!(state.attempts_made(), max_retries as u64 + 1);
        assert!(!state.can_send());
    }
}

#[test]
fn terminal_errors_are_not_retried() {
    let mut state = RetryState::new(RetryConfig::default());
    let decision = state.record(
        SendOutcome::Status {
            status: 401,
            body: r#"{"error":{"message":"bad key"}}"#.to_string(),
            retry_after_ms: None,
        },
        1000,
    );
    match decision {
        RetryDecision::GiveUp(ApiError::Auth { message }) => assert_eq!(message, "bad key"),
        other => panic!("Expected GiveUp(Auth), got {other:?}"),
    }
    assert_eq!(state.attempts_made(), 1);
}

#[test]
fn rate_limit_with_retry_after_sets_the_delay() {
    let config = RetryConfig {
        max_retries: 3,
        initial_delay_ms: 1000,
        max_delay_ms: 4000,
    };
    let mut state = RetryState::new(config);
    let hinted = SendOutcome::Status {
        status: 429,
        body: String::new(),
        retry_after_ms: parse_retry_after("2.5"),
    };
    match state.record(hinted, 777) {
        RetryDecision::RetryAfter { delay_ms } => assert_eq!(delay_ms, 2500),
        other => panic!("Expected RetryAfter, got {other:?}"),
    }
    let hinted = SendOutcome::Status {
        status: 429,
        body: String::new(),
        retry_after_ms: parse_retry_after("30"),
    };
    match state.record(hinted, 777) {
        RetryDecision::RetryAfter { delay_ms } => assert_eq!(delay_ms, 4000),
        other => panic!("Expected RetryAfter, got {other:?}"),
    }
    let plain = SendOutcome::Status {
        status: 429,
        body: String::new(),
        retry_after_ms: None,
    };
    match state.record(plain, 777) {
        RetryDecision::RetryAfter { delay_ms } => assert_eq!(delay_ms, 777),
        other => panic!("Expected RetryAfter, got {other:?}"),
    }
}

#[test]
fn transport_failures_are_retried_then_given_up() {
    let config = RetryConfig {
        max_retries: 1,
        initial_delay_ms: 5,
        max_delay_ms: 50,
    };
    let mut state = RetryState::new(config);
    assert!(matches!(
        state.record(SendOutcome::TimedOut, 5),
        RetryDecision::RetryAfter { delay_ms: 5 }
    ));
    match state.record(SendOutcome::Failed("connection reset".to_string()), 5) {
        RetryDecision::GiveUp(ApiError::Network(message)) => {
            assert_eq!(message, "connection reset")
        }
        other => panic!("Expected GiveUp(Network), got {other:?}"),
    }
    let mut state = RetryState::new(config);
    assert!(matches!(
        state.record(SendOutcome::Success, 5),
        RetryDecision::Proceed
    ));
}

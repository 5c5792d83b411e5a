use boj_client::error::BojError;
use boj_client::json::parse_next_position_from_text;
use boj_client::retry::{retry_step, should_retry, RetryPolicy};
use boj_client::tools::to_tool_error;

/// Drives an action through the retry policy the way a caller does: perform
/// an attempt, ask `retry_step` on failure, record the backoff it asks for,
/// and repeat.
fn run_with_retry<T, F>(policy: RetryPolicy, mut action: F) -> Result<T, BojError>
where
    F: FnMut() -> Result<T, BojError>,
{
    let mut retry_index: u32 = 0;
    loop {
        match action() {
            Ok(value) => return Ok(value),
            Err(error) => match retry_step(policy, retry_index, &error) {
                None => return Err(error),
                Some(delay_ms) => {
                    assert_eq!(delay_ms, policy.delay_for_attempt(retry_index));
                    retry_index += 1;
                }
            },
        }
    }
}

#[test]
fn retries_transport_error_until_success() {
    let mut attempts = 0_u8;
    let result = run_with_retry(
        RetryPolicy {
            max_retries: 2,
            initial_backoff_ms: 1,
        },
        || {
            attempts += 1;
            if attempts < 3 {
                return Err(BojError::transport("temporary network failure"));
            }
            Ok("ok")
        },
    )
    .expect("expected eventual success");

    assert_eq!(result, "ok");
    assert_eq!(attempts, 3);
}

#[test]
fn does_not_retry_validation_error() {
    let mut attempts = 0_u8;
    let error: Result<(), BojError> = run_with_retry(
        RetryPolicy {
            max_retries: 3,
            initial_backoff_ms: 1,
        },
        || {
            attempts += 1;
            Err(BojError::validation("invalid db"))
        },
    );
    let error = error.expect_err("expected immediate failure");

    assert!(matches!(error, BojError::ValidationError(_)));
    assert_eq!(attempts, 1);
}

#[test]
fn retry_policy_matches_boj_statuses() {
    let bad_request = BojError::api(400, "M181005E", "invalid db");
    let internal = BojError::api(500, "M181090S", "internal error");
    let unavailable = BojError::api(503, "M181091S", "db error");

    assert!(!should_retry(&bad_request));
    assert!(should_retry(&internal));
    assert!(should_retry(&unavailable));
}

#[test]
fn decode_errors_are_never_retried() {
    assert!(!should_retry(&BojError::decode("bad payload")));
    assert!(should_retry(&BojError::transport("timeout")));
}

#[test]
fn backoff_doubles_per_retry_and_saturates() {
    let policy = RetryPolicy {
        max_retries: 10,
        initial_backoff_ms: 200,
    };
    assert_eq!(policy.delay_for_attempt(0), 200);
    assert_eq!(policy.delay_for_attempt(1), 400);
    assert_eq!(policy.delay_for_attempt(2), 800);

    let huge = RetryPolicy {
        max_retries: 200,
        initial_backoff_ms: u64::MAX / 2,
    };
    assert_eq!(huge.delay_for_attempt(5), u64::MAX);
    let zero = RetryPolicy {
        max_retries: 1,
        initial_backoff_ms: 0,
    };
    assert_eq!(zero.delay_for_attempt(9), 0);
}

#[test]
fn retry_step_stops_at_max_retries() {
    let policy = RetryPolicy {
        max_retries: 2,
        initial_backoff_ms: 1,
    };
    let transport = BojError::transport("boom");
    assert_eq!(retry_step(policy, 0, &transport), Some(1));
    assert_eq!(retry_step(policy, 1, &transport), Some(2));
    assert_eq!(retry_step(policy, 2, &transport), None);
}

#[test]
fn error_constructors_build_each_variant() {
    assert!(matches!(
        BojError::validation("x"),
        BojError::ValidationError(_)
    ));
    assert!(matches!(BojError::decode("x"), BojError::DecodeError(_)));
    assert!(matches!(
        BojError::transport("x"),
        BojError::TransportError(_)
    ));
    assert!(matches!(
        BojError::api(500, "M181090S", "internal"),
        BojError::ApiError { status: 500, .. }
    ));
}

#[test]
fn tool_error_payload_classifies_errors() {
    let validation = to_tool_error(BojError::validation("bad db"));
    assert_eq!(validation.error_type, "VALIDATION_ERROR");
    assert!(!validation.retryable);
    assert_eq!(validation.status, None);

    let api = to_tool_error(BojError::api(503, "M181091S", "db error"));
    assert_eq!(api.error_type, "API_ERROR");
    assert!(api.retryable);
    assert_eq!(api.status, Some(503));
    assert_eq!(api.message_id.as_deref(), Some("M181091S"));

    let api_bad = to_tool_error(BojError::api(400, "M181005E", "bad db"));
    assert!(!api_bad.retryable);

    let transport = to_tool_error(BojError::transport("timeout"));
    assert_eq!(transport.error_type, "TRANSPORT_ERROR");
    assert!(transport.retryable);

    let decode = to_tool_error(BojError::decode("bad payload"));
    assert_eq!(decode.error_type, "DECODE_ERROR");
    assert!(!decode.retryable);
}

#[test]
fn parse_next_position_handles_blank_and_null() {
    assert_eq!(parse_next_position_from_text(Some("")).unwrap(), None);
    assert_eq!(parse_next_position_from_text(None).unwrap(), None);
    assert_eq!(
        parse_next_position_from_text(Some("250")).unwrap(),
        Some(250)
    );
    assert_eq!(parse_next_position_from_text(Some("null")).unwrap(), None);
    assert!(parse_next_position_from_text(Some("soon")).is_err());
}

use agm_proxy::accounts::AccountSet;
use agm_proxy::common::{
    determine_retry_strategy, exhausted_response_status, record_account_for_rotation,
    should_rotate_account_for_error, RetryStrategy,
};
use std::time::Duration;

#[test]
fn records_only_accounts_that_must_rotate() {
    let mut attempted_account_ids = AccountSet::new();

    assert!(record_account_for_rotation(
        true,
        "failed-account",
        &mut attempted_account_ids,
    ));
    assert!(attempted_account_ids.contains("failed-account"));

    assert!(!record_account_for_rotation(
        false,
        "retry-same-account",
        &mut attempted_account_ids,
    ));
    assert!(!attempted_account_ids.contains("retry-same-account"));
}

#[test]
fn rotates_account_for_structured_model_capacity_503() {
    let error = r#"{
        "error": {
            "code": 503,
            "message": "No capacity available for model gemini-3.1-flash-image on the server",
            "details": [{"reason": "MODEL_CAPACITY_EXHAUSTED"}]
        }
    }"#;

    assert!(should_rotate_account_for_error(503, None, error));
}

#[test]
fn rotates_account_for_image_capacity_503() {
    let error = r#"{"error":{"code":503,"details":[{"reason":"IMAGE_CAPACITY_EXHAUSTED"}]}}"#;

    assert!(should_rotate_account_for_error(503, None, error));
}

#[test]
fn keeps_same_account_for_generic_503() {
    let error = r#"{"error":{"code":503,"message":"Service temporarily unavailable"}}"#;

    assert!(!should_rotate_account_for_error(503, None, error));
}

#[test]
fn quickly_retries_model_capacity_503() {
    let error = "HTTP 503: No capacity available for model gemini-3.1-flash-image";

    match determine_retry_strategy(503, error, false, None) {
        RetryStrategy::FixedDelay(delay) => {
            assert_eq!(delay, Duration::from_millis(500));
        }
        strategy => panic!("unexpected retry strategy: {strategy:?}"),
    }
}

#[test]
fn retries_and_rotates_for_unsupported_location() {
    let error = r#"{"error":{"code":400,"message":"User location is not supported for the API use.","status":"FAILED_PRECONDITION"}}"#;

    assert!(matches!(
        determine_retry_strategy(400, error, false, None),
        RetryStrategy::FixedDelay(_)
    ));
    assert!(should_rotate_account_for_error(400, None, error));
}

#[test]
fn does_not_retry_unrelated_bad_request() {
    let error = r#"{"error":{"code":400,"status":"INVALID_ARGUMENT"}}"#;

    assert!(matches!(
        determine_retry_strategy(400, error, false, None),
        RetryStrategy::NoRetry
    ));
    assert!(!should_rotate_account_for_error(400, None, error));
}

#[test]
fn preserves_service_unavailable_for_exhausted_model_capacity() {
    let error = "HTTP 503: No capacity available for model gemini-3.1-flash-image";

    assert_eq!(
        exhausted_response_status(Some(503), error),
        503
    );
}

use agm_proxy::accounts::AccountSet;
use agm_proxy::common::{
    determine_retry_strategy, exhausted_response_status, has_retry_attempt_remaining,
    is_model_capacity_error, is_model_capacity_error_with, is_unsupported_location_error,
    record_account_for_rotation, retry_delay, should_grace_retry, should_rotate_account,
    should_rotate_account_for_error, value_contains_model_capacity_error, RetryStrategy,
};
use agm_proxy::json::{parse_json, Json};
use std::time::Duration;

fn shown(strategy: &RetryStrategy) -> String {
    format!("{strategy:?}")
}

#[test]
fn final_attempt_has_no_retry_slot() {
    assert!(has_retry_attempt_remaining(0, 3));
    assert!(has_retry_attempt_remaining(1, 3));
    assert!(!has_retry_attempt_remaining(2, 3));
    assert!(!has_retry_attempt_remaining(0, 0));
    assert!(!has_retry_attempt_remaining(usize::MAX, usize::MAX));
}

#[test]
fn no_wait_follows_the_final_attempt() {
    let strategies = vec![
        RetryStrategy::NoRetry,
        RetryStrategy::FixedDelay(Duration::from_millis(200)),
        RetryStrategy::LinearBackoff { base_ms: 5000 },
        RetryStrategy::ExponentialBackoff { base_ms: 10000, max_ms: 60000 },
        RetryStrategy::GraceRetry(Duration::from_millis(300)),
    ];
    for strategy in &strategies {
        assert_eq!(retry_delay(strategy, 2, 3), None);
        assert_eq!(retry_delay(strategy, 0, 0), None);
        assert_eq!(retry_delay(strategy, 0, 2).is_none(), shown(strategy) == "NoRetry");
    }
}

#[test]
fn waits_follow_their_formulas() {
    let fixed = RetryStrategy::FixedDelay(Duration::from_millis(750));
    assert_eq!(retry_delay(&fixed, 4, 9), Some(Duration::from_millis(750)));

    let linear = RetryStrategy::LinearBackoff { base_ms: 5000 };
    assert_eq!(retry_delay(&linear, 0, 9), Some(Duration::from_millis(5000)));
    assert_eq!(retry_delay(&linear, 2, 9), Some(Duration::from_millis(15000)));

    let doubling = RetryStrategy::ExponentialBackoff { base_ms: 10000, max_ms: 60000 };
    assert_eq!(retry_delay(&doubling, 0, 99), Some(Duration::from_millis(10000)));
    assert_eq!(retry_delay(&doubling, 1, 99), Some(Duration::from_millis(20000)));
    assert_eq!(retry_delay(&doubling, 2, 99), Some(Duration::from_millis(40000)));
    assert_eq!(retry_delay(&doubling, 3, 99), Some(Duration::from_millis(60000)));
    assert_eq!(retry_delay(&doubling, 90, 99), Some(Duration::from_millis(60000)));

    let zero = RetryStrategy::ExponentialBackoff { base_ms: 0, max_ms: 60000 };
    assert_eq!(retry_delay(&zero, 70, 99), Some(Duration::from_millis(0)));
    let capped = RetryStrategy::ExponentialBackoff { base_ms: 5, max_ms: 3 };
    assert_eq!(retry_delay(&capped, 0, 99), Some(Duration::from_millis(3)));

    let grace = RetryStrategy::GraceRetry(Duration::from_millis(1600));
    assert_eq!(retry_delay(&grace, 0, 2), Some(Duration::from_millis(1600)));
}

#[test]
fn backoff_never_shrinks() {
    let doubling = RetryStrategy::ExponentialBackoff { base_ms: 7, max_ms: 1000 };
    let mut last = Duration::from_millis(0);
    for attempt in 0..70 {
        let wait = retry_delay(&doubling, attempt, 99).unwrap();
        assert!(last <= wait && wait <= Duration::from_millis(1000));
        last = wait;
    }
}

#[test]
fn rate_limits_wait_as_the_provider_asks() {
    assert!(should_grace_retry(2000));
    assert!(!should_grace_retry(2001));
    let shown_for = |delay| shown(&determine_retry_strategy(429, "slow down", false, delay));
    assert_eq!(shown_for(Some(0)), "GraceRetry(100ms)");
    assert_eq!(shown_for(Some(2000)), "GraceRetry(2.1s)");
    assert_eq!(shown_for(Some(2001)), "FixedDelay(2.201s)");
    assert_eq!(shown_for(Some(29_800)), "FixedDelay(30s)");
    assert_eq!(shown_for(Some(u64::MAX)), "FixedDelay(30s)");
    assert_eq!(shown_for(None), "LinearBackoff { base_ms: 5000 }");
}

#[test]
fn every_status_has_its_strategy() {
    let strategy = |status, text: &str| shown(&determine_retry_strategy(status, text, false, None));
    assert_eq!(strategy(400, "USER LOCATION is not supported"), "FixedDelay(200ms)");
    assert_eq!(strategy(400, "Invalid `signature` in block"), "FixedDelay(200ms)");
    assert_eq!(strategy(400, "bad thinking.signature"), "FixedDelay(200ms)");
    assert_eq!(strategy(400, "bad thinking.thinking"), "FixedDelay(200ms)");
    assert_eq!(strategy(400, "Corrupted thought signature"), "FixedDelay(200ms)");
    assert_eq!(strategy(400, "corrupted thought signature"), "NoRetry");
    assert_eq!(
        strategy(503, "unavailable"),
        "ExponentialBackoff { base_ms: 10000, max_ms: 60000 }"
    );
    assert_eq!(strategy(503, "IMAGE_CAPACITY_EXHAUSTED"), "FixedDelay(500ms)");
    assert_eq!(
        strategy(529, "MODEL_CAPACITY_EXHAUSTED"),
        "ExponentialBackoff { base_ms: 10000, max_ms: 60000 }"
    );
    assert_eq!(strategy(500, ""), "LinearBackoff { base_ms: 3000 }");
    assert_eq!(strategy(401, ""), "FixedDelay(200ms)");
    assert_eq!(strategy(403, ""), "FixedDelay(200ms)");
    assert_eq!(strategy(404, ""), "FixedDelay(300ms)");
    assert_eq!(strategy(418, ""), "NoRetry");
    assert_eq!(
        shown(&determine_retry_strategy(400, "Invalid `signature`", true, None)),
        "NoRetry"
    );
    assert_eq!(
        shown(&determine_retry_strategy(400, "user location is not supported", true, None)),
        "FixedDelay(200ms)"
    );
}

#[test]
fn a_grace_retry_keeps_the_account() {
    let grace = RetryStrategy::GraceRetry(Duration::from_millis(100));
    for status in [429, 401, 403, 404, 500] {
        assert!(should_rotate_account(status, None));
        assert!(should_rotate_account(status, Some(&RetryStrategy::NoRetry)));
        assert!(!should_rotate_account(status, Some(&grace)));
        assert!(!should_rotate_account_for_error(status, Some(&grace.clone()), "quota"));
    }
    for status in [400, 503, 529, 200] {
        assert!(!should_rotate_account(status, None));
    }
    assert!(should_rotate_account_for_error(503, Some(&grace), "model_capacity_exhausted"));
}

#[test]
fn capacity_errors_are_found_in_text_and_documents() {
    assert!(is_model_capacity_error("No Capacity Available For Model x"));
    assert!(is_model_capacity_error("HTTP 503: {\"a\": [1, {\"b\": \"Image_Capacity_Exhausted\"}]}"));
    assert!(is_model_capacity_error(r#"{"m":"Model_capacity_exhausted"}"#));
    assert!(is_model_capacity_error(r#"["Model_capacity_exhausted"]"#));
    assert!(is_model_capacity_error(r#"503: {"r":["MODEL\u005fCAPACITY_EXHAUSTED"]}"#));
    assert!(!is_model_capacity_error(r#"503: ["MODEL\u005fCAPACITY_EXHAUSTED"]"#));
    assert!(!is_model_capacity_error(r#"{"model capacity": "fine"}"#));
    assert!(!is_model_capacity_error(""));
}

#[test]
fn capacity_errors_are_found_in_a_given_document() {
    let told = Json::Array(vec![Json::Null, Json::text("IMAGE_CAPACITY_EXHAUSTED")]);
    assert!(value_contains_model_capacity_error(&told));
    assert!(is_model_capacity_error_with(Some(&told), "nothing here"));
    assert!(!is_model_capacity_error_with(None, "nothing here"));
    assert!(is_model_capacity_error_with(None, "model_capacity_exhausted"));
    assert!(!value_contains_model_capacity_error(&Json::Bool(true)));

    let twice = Json::Object(vec![
        ("reason".to_string(), Json::text("model_capacity_exhausted")),
        ("reason".to_string(), Json::text("other")),
    ]);
    assert!(!value_contains_model_capacity_error(&twice));
    let read = parse_json(r#"{"reason":"model_capacity_exhausted","reason":"other"}"#).unwrap();
    assert!(!value_contains_model_capacity_error(&read));
}

#[test]
fn unsupported_locations_are_recognised_in_any_case() {
    assert!(is_unsupported_location_error("The USER LOCATION IS NOT SUPPORTED here"));
    assert!(!is_unsupported_location_error("location not supported"));
}

#[test]
fn an_exhausted_request_ends_in_429_but_for_capacity() {
    assert_eq!(exhausted_response_status(Some(503), "unavailable"), 429);
    assert_eq!(exhausted_response_status(Some(500), "model_capacity_exhausted"), 429);
    assert_eq!(exhausted_response_status(None, "model_capacity_exhausted"), 429);
    assert_eq!(exhausted_response_status(Some(503), "model_capacity_exhausted"), 503);
}

#[test]
fn accounts_are_recorded_once_and_in_order() {
    let mut accounts = AccountSet::new();
    assert!(accounts.is_empty());
    assert!(record_account_for_rotation(true, "b", &mut accounts));
    assert!(record_account_for_rotation(true, "a", &mut accounts));
    assert!(record_account_for_rotation(true, "b", &mut accounts));
    assert_eq!(accounts.len(), 2);
    assert_eq!(accounts.as_slice(), ["b".to_string(), "a".to_string()]);
    let mut copy = accounts.clone();
    assert!(!copy.insert("a".to_string()));
    assert!(copy.insert("c".to_string()));
    assert!(!accounts.contains("c"));
    assert_eq!(copy.len(), 3);
}

use agm_proxy::pool_retry::{
    classify_pool_failure, gemini_retry_action, openai_retry_action, GeminiRetryAction,
    OpenAiRetryAction, PoolAttemptState, PoolFailure, PoolFailureScope, RetryDisposition,
};

#[test]
fn provider_model_capacity_is_not_account_limit() {
    let failure = classify_pool_failure(
        503,
        "No capacity available for model gemini-2.5-pro on the server",
        None,
    );

    assert_eq!(failure.status, 503);
    assert_eq!(failure.scope, PoolFailureScope::ProviderModel);
    assert_eq!(failure.disposition, RetryDisposition::Return);
    assert!(!failure.should_cooldown_account());
}

#[test]
fn structured_model_capacity_is_provider_scoped() {
    let failure = classify_pool_failure(503, r#"{"reason":"MODEL_CAPACITY_EXHAUSTED"}"#, None);

    assert_eq!(failure.scope, PoolFailureScope::ProviderModel);
    assert_eq!(failure.disposition, RetryDisposition::Return);
}

#[test]
fn account_quota_429_rotates_and_cools_model() {
    let failure = classify_pool_failure(
        429,
        "You have exhausted your capacity on this model. Your quota will reset after 4h59m58s.",
        Some("17998"),
    );

    assert_eq!(failure.status, 429);
    assert_eq!(failure.scope, PoolFailureScope::AccountModel);
    assert_eq!(failure.disposition, RetryDisposition::RotateAccount);
    assert!(failure.should_cooldown_account());
    assert_eq!(failure.retry_after.as_deref(), Some("17998"));
}

#[test]
fn gemini_account_429_marks_and_rotates() {
    let failure = classify_pool_failure(429, "quota will reset after 4h", None);

    assert_eq!(
        gemini_retry_action(&failure, 9),
        GeminiRetryAction::CooldownAndRotate
    );
}

#[test]
fn gemini_provider_capacity_503_returns_without_long_backoff() {
    let failure = classify_pool_failure(503, "No capacity available for model", None);

    assert_eq!(
        gemini_retry_action(&failure, 9),
        GeminiRetryAction::ReturnProviderStatus
    );
}

#[test]
fn openai_account_429_marks_and_rotates() {
    let failure = classify_pool_failure(429, "quota will reset after 4h", None);

    assert_eq!(
        openai_retry_action(&failure, 9),
        OpenAiRetryAction::CooldownAndRotate
    );
}

#[test]
fn openai_provider_capacity_503_preserves_provider_status() {
    let failure = classify_pool_failure(503, "No capacity available for model", None);

    assert_eq!(
        openai_retry_action(&failure, 9),
        OpenAiRetryAction::ReturnProviderStatus
    );
}

#[test]
fn openai_account_failure_stops_when_no_accounts_remain() {
    let failure = classify_pool_failure(429, "quota will reset after 4h", None);

    assert_eq!(
        openai_retry_action(&failure, 0),
        OpenAiRetryAction::ReturnFailure
    );
}

#[test]
fn verification_failure_blocks_only_the_account() {
    let failure = classify_pool_failure(429, "Verify your account to continue.", None);

    assert_eq!(failure.scope, PoolFailureScope::AccountAuth);
    assert_eq!(failure.disposition, RetryDisposition::RotateAccount);
    assert!(failure.should_cooldown_account());
}

#[test]
fn validation_required_is_account_auth() {
    let failure = classify_pool_failure(
        403,
        r#"{"reason":"VALIDATION_REQUIRED","validationUrl":"https://example.invalid"}"#,
        None,
    );

    assert_eq!(failure.scope, PoolFailureScope::AccountAuth);
    assert_eq!(failure.disposition, RetryDisposition::RotateAccount);
}

#[test]
fn authentication_statuses_are_account_scoped_without_marker_text() {
    for status in [401, 403] {
        let failure = classify_pool_failure(status, "upstream authentication failed", None);

        assert_eq!(failure.scope, PoolFailureScope::AccountAuth);
        assert_eq!(failure.disposition, RetryDisposition::RotateAccount);
    }
}

#[test]
fn terminal_status_preserves_provider_503() {
    let mut state = PoolAttemptState::new(9);
    state.record_failure(
        "acc-1".to_string(),
        classify_pool_failure(503, "No capacity available for model gemini-2.5-pro", None),
    );

    assert_eq!(state.terminal_status(), 503);
}

#[test]
fn account_attempt_cap_is_pool_size_or_ten() {
    assert_eq!(PoolAttemptState::new(0).max_account_attempts(), 0);
    assert_eq!(PoolAttemptState::new(4).max_account_attempts(), 4);
    assert_eq!(PoolAttemptState::new(10).max_account_attempts(), 10);
    assert_eq!(PoolAttemptState::new(25).max_account_attempts(), 10);
}

#[test]
fn attempted_account_ids_are_unique() {
    let mut state = PoolAttemptState::new(2);
    let account_limit = || {
        classify_pool_failure(
            429,
            "Account quota exhausted; quota will reset after 1h.",
            None,
        )
    };

    state.record_failure("acc-1".to_string(), account_limit());
    state.record_failure("acc-1".to_string(), account_limit());

    assert_eq!(state.attempted_account_ids().len(), 1);
    assert!(state.attempted_account_ids().contains("acc-1"));
    assert_eq!(state.account_limit_failure_count(), 1);
}

#[test]
fn whole_pool_exhaustion_requires_every_eligible_account_limit() {
    let mut state = PoolAttemptState::new(2);
    state.record_failure(
        "acc-1".to_string(),
        classify_pool_failure(429, "Account quota exhausted; reset after 1h.", None),
    );
    assert!(!state.whole_pool_exhausted());

    state.record_failure(
        "acc-2".to_string(),
        classify_pool_failure(429, "Model quota exhausted; reset after 2h.", None),
    );
    assert!(state.whole_pool_exhausted());
    assert_eq!(state.terminal_status(), 429);
}

#[test]
fn capped_attempts_do_not_claim_a_larger_pool_is_exhausted() {
    let mut state = PoolAttemptState::new(11);

    for index in 0..10 {
        state.record_failure(
            format!("acc-{index}"),
            classify_pool_failure(
                429,
                "Account quota exhausted; quota will reset after 1h.",
                None,
            ),
        );
    }

    assert!(!state.whole_pool_exhausted());
    assert_eq!(state.terminal_status(), 503);
}

#[test]
fn later_account_limit_updates_the_same_attempted_account() {
    let mut state = PoolAttemptState::new(1);
    state.record_failure(
        "acc-1".to_string(),
        classify_pool_failure(500, "temporary upstream failure", None),
    );
    state.record_failure(
        "acc-1".to_string(),
        classify_pool_failure(429, "Account quota exhausted; reset after 1h.", None),
    );

    assert_eq!(state.account_limit_failure_count(), 1);
    assert!(state.whole_pool_exhausted());
}

#[test]
fn non_account_failure_prevents_whole_pool_exhaustion() {
    let mut state = PoolAttemptState::new(2);
    state.record_failure(
        "acc-1".to_string(),
        classify_pool_failure(429, "Account quota exhausted; reset after 1h.", None),
    );
    state.record_failure(
        "acc-2".to_string(),
        classify_pool_failure(503, "No capacity available for model gemini-2.5-pro", None),
    );

    assert!(!state.whole_pool_exhausted());
    assert_eq!(state.terminal_status(), 503);
}

#[test]
fn transport_only_terminal_failure_returns_502() {
    let mut state = PoolAttemptState::new(1);
    state.record_failure("acc-1".to_string(), PoolFailure::transport("connection reset by peer"));

    assert_eq!(state.terminal_status(), 502);
}

#[test]
fn retry_after_is_preserved_from_final_meaningful_failure() {
    let mut state = PoolAttemptState::new(2);
    state.record_failure(
        "acc-1".to_string(),
        classify_pool_failure(
            429,
            "Account quota exhausted; quota will reset after 120 seconds.",
            Some("120"),
        ),
    );
    state.record_failure("acc-2".to_string(), PoolFailure::transport("connection reset by peer"));

    assert_eq!(state.retry_after(), Some("120"));
    assert_eq!(state.terminal_status(), 429);
}

#[test]
fn unknown_failures_preserve_status_and_return() {
    let failure = classify_pool_failure(418, "upstream returned an unfamiliar error", None);

    assert_eq!(failure.status, 418);
    assert_eq!(failure.scope, PoolFailureScope::Unknown);
    assert_eq!(failure.disposition, RetryDisposition::Return);
}

#[test]
fn stored_errors_are_sanitized_and_truncated() {
    let error = format!(
        "Authorization: Bearer secret-token request body: {{\"password\":\"hunter2\"}} {}",
        "x".repeat(2_000)
    );
    let failure = classify_pool_failure(500, &error, None);

    assert!(!failure.sanitized_error.contains("secret-token"));
    assert!(!failure.sanitized_error.contains("hunter2"));
    assert!(!failure.sanitized_error.contains("request body: {"));
    assert!(failure.sanitized_error.chars().count() <= 1_024);
}

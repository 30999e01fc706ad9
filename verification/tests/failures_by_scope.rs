use agm_proxy::pool_retry::{
    classify_pool_failure, gemini_retry_action, is_account_auth_failure, is_account_model_failure,
    is_provider_model_failure, openai_retry_action, GeminiRetryAction, OpenAiRetryAction,
    PoolAttemptState, PoolFailure, PoolFailureScope,
};

#[test]
fn every_marker_of_an_account_is_known() {
    for marker in [
        "verify your account",
        "account verification",
        "validation_required",
        "validation_url",
        "validationurl",
        "validation url",
        "appeal_url",
        "further action is required",
        "risk-control",
        "risk_control",
        "risk control",
        "permission denied",
        "insufficient permissions",
        "account suspended",
        "account disabled",
    ] {
        assert!(is_account_auth_failure(&format!("x {marker} y")));
        let failure = classify_pool_failure(500, &marker.to_uppercase(), None);
        assert_eq!(failure.scope, PoolFailureScope::AccountAuth);
        assert_eq!(failure.status, 500);
    }
    assert!(!is_account_auth_failure("Verify Your Account"));
}

#[test]
fn every_marker_of_a_limit_is_known() {
    for marker in [
        "quota",
        "rate limit",
        "rate_limit",
        "resource exhausted",
        "resource_exhausted",
        "capacity on this model",
        "account capacity",
        "reset after",
        "retry after",
    ] {
        assert!(is_account_model_failure(marker));
        let failure = classify_pool_failure(429, &marker.to_uppercase(), Some("7"));
        assert_eq!(failure.scope, PoolFailureScope::AccountModel);
        assert_eq!(failure.retry_after.as_deref(), Some("7"));
        let elsewhere = classify_pool_failure(400, marker, None);
        assert_eq!(elsewhere.scope, PoolFailureScope::Unknown);
    }
    assert_eq!(classify_pool_failure(429, "slow down", None).scope, PoolFailureScope::Unknown);
}

#[test]
fn provider_capacity_needs_its_status() {
    assert!(is_provider_model_failure("no capacity available for model x"));
    assert!(is_provider_model_failure("model_capacity_exhausted"));
    assert!(!is_provider_model_failure("image_capacity_exhausted"));
    let scope = |status| classify_pool_failure(status, "MODEL_CAPACITY_EXHAUSTED", None).scope;
    assert_eq!(scope(503), PoolFailureScope::ProviderModel);
    assert_eq!(scope(500), PoolFailureScope::Unknown);
    assert_eq!(scope(403), PoolFailureScope::AccountAuth);
}

#[test]
fn both_protocols_act_alike() {
    let failures = [
        classify_pool_failure(401, "", None),
        classify_pool_failure(429, "quota", None),
        classify_pool_failure(503, "model_capacity_exhausted", None),
        classify_pool_failure(418, "", None),
        PoolFailure::transport("reset"),
    ];
    let expected = [
        (GeminiRetryAction::CooldownAndRotate, OpenAiRetryAction::CooldownAndRotate),
        (GeminiRetryAction::CooldownAndRotate, OpenAiRetryAction::CooldownAndRotate),
        (GeminiRetryAction::ReturnProviderStatus, OpenAiRetryAction::ReturnProviderStatus),
        (GeminiRetryAction::ReturnFailure, OpenAiRetryAction::ReturnFailure),
        (GeminiRetryAction::ReturnFailure, OpenAiRetryAction::ReturnFailure),
    ];
    for (failure, (gemini, openai)) in failures.iter().zip(expected) {
        assert_eq!(gemini_retry_action(failure, 1), gemini);
        assert_eq!(openai_retry_action(failure, 1), openai);
        let stopped = failure.should_cooldown_account();
        if stopped {
            assert_eq!(gemini_retry_action(failure, 0), GeminiRetryAction::ReturnFailure);
        } else {
            assert_eq!(gemini_retry_action(failure, 0), gemini);
        }
    }
}

#[test]
fn a_transport_failure_does_not_displace_an_http_failure() {
    let mut state = PoolAttemptState::new(3);
    assert!(state.last_failure().is_none());
    assert_eq!(state.terminal_status(), 502);
    assert_eq!(state.retry_after(), None);

    state.record_failure("a".to_string(), PoolFailure::transport("first"));
    assert_eq!(state.last_failure().unwrap().sanitized_error, "first");
    state.record_failure("b".to_string(), classify_pool_failure(500, "second", Some("9")));
    assert_eq!(state.last_failure().unwrap().sanitized_error, "second");
    state.record_failure("c".to_string(), PoolFailure::transport("third"));
    assert_eq!(state.last_failure().unwrap().sanitized_error, "second");
    assert_eq!(state.terminal_status(), 500);
    assert_eq!(state.retry_after(), Some("9"));
    assert_eq!(state.account_limit_failure_count(), 0);
}

#[test]
fn some_limited_accounts_of_a_pool_end_in_503() {
    let mut state = PoolAttemptState::new(3);
    state.record_failure("a".to_string(), classify_pool_failure(429, "quota", None));
    assert_eq!(state.terminal_status(), 503);
    let copy = state.clone();
    state.record_failure("b".to_string(), classify_pool_failure(403, "", None));
    state.record_failure("c".to_string(), classify_pool_failure(429, "rate limit", None));
    assert!(state.whole_pool_exhausted());
    assert_eq!(state.terminal_status(), 429);
    assert_eq!(copy.terminal_status(), 503);
    assert_eq!(copy.max_account_attempts(), 3);
}

#[test]
fn an_empty_pool_is_never_exhausted() {
    let mut state = PoolAttemptState::new(0);
    state.record_failure("a".to_string(), classify_pool_failure(429, "quota", None));
    assert!(!state.whole_pool_exhausted());
    assert_eq!(state.terminal_status(), 503);
}

#[test]
fn a_failure_without_a_status_ends_in_502() {
    let mut state = PoolAttemptState::new(2);
    state.record_failure("a".to_string(), classify_pool_failure(0, "odd", None));
    assert_eq!(state.terminal_status(), 502);
}

#[test]
fn unauthorized_accounts_keep_their_status() {
    let unauthorized = || classify_pool_failure(401, "upstream authentication failed", None);
    for pool_size in [1, 11] {
        let mut state = PoolAttemptState::new(pool_size);
        state.record_failure("acc-1".to_string(), unauthorized());
        assert_eq!(state.terminal_status(), 401);
        assert_eq!(state.whole_pool_exhausted(), pool_size == 1);
        assert_eq!(state.account_limit_failure_count(), 1);
    }
}

#[test]
fn one_unauthorized_account_among_limited_ones_keeps_the_last_status() {
    let mut state = PoolAttemptState::new(2);
    state.record_failure("a".to_string(), classify_pool_failure(429, "quota", None));
    state.record_failure("b".to_string(), classify_pool_failure(403, "", None));
    assert_eq!(state.terminal_status(), 403);
    state.record_failure("b".to_string(), classify_pool_failure(429, "quota", None));
    assert_eq!(state.terminal_status(), 429);
}

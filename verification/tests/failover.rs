use agm_proxy::failover::{
    validation_block_until, Cooldown, GeminiAccount, GenerateState, HttpStep, NextAttempt,
    StreamStart, StreamStep,
};
use agm_proxy::gemini::ErrorReply;
use std::time::Duration;

fn account(id: &str) -> GeminiAccount {
    GeminiAccount {
        access_token: format!("token-{id}"),
        project_id: "project".to_string(),
        email: format!("{id}@example.invalid"),
        account_id: id.to_string(),
    }
}

/// Begins an attempt with a newly selected account.
fn ask(state: &mut GenerateState, id: &str) {
    assert_eq!(state.next_attempt(), NextAttempt::Select);
    assert!(!state.excluded_account_ids().contains(id));
    state.account_selected(account(id));
    state.call_started("pro".to_string());
}

/// Begins an attempt with the account of the last one.
fn ask_again(state: &mut GenerateState, id: &str) {
    assert_eq!(state.next_attempt(), NextAttempt::Reuse);
    assert_eq!(state.account().unwrap().account_id, id);
    state.call_started("pro".to_string());
}

fn message(reply: &ErrorReply) -> &str {
    reply.body.get("error").unwrap().get("message").unwrap().as_str().unwrap()
}

#[test]
fn a_limited_account_leads_to_another_one() {
    let mut state = GenerateState::new(2);
    ask(&mut state, "a");
    let step = state.http_failed(429, "quota exhausted", Some("60"), None, false);
    match step {
        HttpStep::Rotate(Cooldown::RateLimited(reason)) => assert_eq!(reason, "quota exhausted"),
        other => panic!("unexpected step: {other:?}"),
    }
    assert!(state.force_rotate());
    assert!(state.excluded_account_ids().contains("a"));
    ask(&mut state, "b");
    assert_eq!(state.stream_started(StreamStart::Chunk(5)), StreamStep::Serve);
    assert_eq!(state.account().unwrap().email, "b@example.invalid");
    assert_eq!(state.request_attempts(), 2);
}

#[test]
fn limited_accounts_end_in_one_429() {
    let mut state = GenerateState::new(3);
    for id in ["a", "b", "c"] {
        ask(&mut state, id);
        let step = state.http_failed(429, "rate limit", Some("5"), Some(9000), false);
        assert_eq!(matches!(step, HttpStep::Rotate(_)), id != "c");
        assert_eq!(matches!(step, HttpStep::Finish(_)), id == "c");
    }
    assert!(state.pool_attempts().whole_pool_exhausted());
    let reply = state.finish();
    assert_eq!(reply.status, 429);
    assert_eq!(message(&reply), "rate limit");
    assert_eq!(reply.retry_after.as_deref(), Some("5"));
    assert_eq!(reply.account_email.as_deref(), Some("c@example.invalid"));
    assert_eq!(reply.mapped_model.as_deref(), Some("pro"));
}

#[test]
fn a_larger_pool_ends_in_503_after_ten_accounts() {
    let mut state = GenerateState::new(25);
    assert_eq!(state.max_account_attempts(), 10);
    assert_eq!(state.max_request_attempts(), 40);
    for n in 0..10 {
        ask(&mut state, &format!("acc-{n}"));
        state.http_failed(429, "quota", None, None, false);
    }
    assert_eq!(state.selected_account_count(), 10);
    assert_eq!(state.finish().status, 503);
}

#[test]
fn unauthorized_accounts_end_in_their_own_status() {
    for pool_size in [1, 2, 25] {
        let mut state = GenerateState::new(pool_size);
        for n in 0..state.max_account_attempts() {
            ask(&mut state, &format!("acc-{n}"));
            state.http_failed(401, "upstream authentication failed", None, None, false);
        }
        let reply = state.finish();
        assert_eq!(reply.status, 401);
        assert_eq!(message(&reply), "upstream authentication failed");
    }
}

#[test]
fn provider_capacity_is_answered_at_once() {
    let mut state = GenerateState::new(9);
    ask(&mut state, "a");
    let text = "No capacity available for model pro";
    match state.http_failed(503, text, Some("3"), None, false) {
        HttpStep::Respond(Cooldown::NotNeeded, reply) => {
            assert_eq!(reply.status, 503);
            assert_eq!(message(&reply), text);
            assert_eq!(reply.retry_after.as_deref(), Some("3"));
        }
        other => panic!("unexpected step: {other:?}"),
    }
    assert!(state.excluded_account_ids().is_empty());
    assert_eq!(state.pool_attempts().account_limit_failure_count(), 0);
}

#[test]
fn unknown_failures_are_answered_with_their_status() {
    let mut state = GenerateState::new(9);
    ask(&mut state, "a");
    match state.http_failed(418, "teapot", None, None, false) {
        HttpStep::Respond(Cooldown::NotNeeded, reply) => {
            assert_eq!(reply.status, 418);
            assert_eq!(message(&reply), "teapot");
            assert_eq!(reply.account_email.as_deref(), Some("a@example.invalid"));
        }
        other => panic!("unexpected step: {other:?}"),
    }
}

#[test]
fn a_short_delay_is_waited_out_once_on_the_same_account() {
    let mut state = GenerateState::new(2);
    ask(&mut state, "a");
    match state.http_failed(429, "quota", None, Some(1500), false) {
        HttpStep::WaitAndRetry(wait) => assert_eq!(wait, Some(Duration::from_millis(1600))),
        other => panic!("unexpected step: {other:?}"),
    }
    assert!(!state.excluded_account_ids().contains("a"));
    ask_again(&mut state, "a");
    assert!(matches!(
        state.http_failed(429, "quota", None, Some(1500), false),
        HttpStep::Rotate(Cooldown::RateLimited(_))
    ));
    ask(&mut state, "b");
    assert!(matches!(
        state.http_failed(429, "quota", None, Some(2000), false),
        HttpStep::WaitAndRetry(Some(_))
    ));
}

#[test]
fn a_signature_is_repaired_once_on_the_same_account() {
    for text in [
        "Invalid `signature`",
        "thinking.signature",
        "Invalid signature",
        "Corrupted thought signature",
    ] {
        let mut state = GenerateState::new(2);
        ask(&mut state, "a");
        match state.http_failed(400, text, None, None, false) {
            HttpStep::RepairAndRetry(wait) => assert_eq!(wait, Some(Duration::from_millis(200))),
            other => panic!("unexpected step: {other:?}"),
        }
        ask_again(&mut state, "a");
        match state.http_failed(400, text, None, None, false) {
            HttpStep::Respond(Cooldown::NotNeeded, reply) => assert_eq!(reply.status, 400),
            other => panic!("unexpected step: {other:?}"),
        }
    }
}

#[test]
fn a_transport_failure_is_tried_again_and_ends_in_502() {
    let mut state = GenerateState::new(2);
    ask(&mut state, "a");
    assert!(state.transport_failed("connection reset".to_string()));
    ask_again(&mut state, "a");
    assert!(!state.transport_failed("api_key=abc refused".to_string()));
    assert!(state.excluded_account_ids().contains("a"));
    let reply = state.finish();
    assert_eq!(reply.status, 502);
    assert_eq!(message(&reply), "api_key=[REDACTED] refused");
    assert_eq!(reply.retry_after, None);
}

#[test]
fn a_stream_that_does_not_start_is_tried_again() {
    let told = |start| {
        let mut state = GenerateState::new(1);
        ask(&mut state, "a");
        assert_eq!(state.stream_started(StreamStart::Chunk(0)), StreamStep::Retry);
        ask_again(&mut state, "a");
        assert_eq!(state.stream_started(start), StreamStep::Finish);
        let reply = state.finish();
        assert_eq!(reply.status, 502);
        message(&reply).to_string()
    };
    assert_eq!(told(StreamStart::Chunk(0)), "Empty or incomplete upstream stream");
    assert_eq!(told(StreamStart::Error("cut".to_string())), "Stream error: cut");
    assert_eq!(told(StreamStart::Ended), "Empty response");
    assert_eq!(told(StreamStart::TimedOut), "First chunk timeout");
}

#[test]
fn accounts_rest_for_the_reason_they_failed() {
    let cooldown = |status, text: &str| {
        let mut state = GenerateState::new(2);
        ask(&mut state, "a");
        match state.http_failed(status, text, None, None, false) {
            HttpStep::Rotate(cooldown) => cooldown,
            other => panic!("unexpected step: {other:?}"),
        }
    };
    for text in [
        "VALIDATION_REQUIRED",
        "verify your account",
        "validation_url",
        "validationUrl",
    ] {
        for status in [401, 403, 429] {
            assert_eq!(cooldown(status, text), Cooldown::ValidationBlocked(text.to_string()));
        }
    }
    for text in [
        "account verification",
        "Validation URL",
        "appeal_url",
        "further action is required",
        "risk-control",
        "RISK_CONTROL",
        "risk control",
    ] {
        for status in [401, 429] {
            assert_eq!(cooldown(status, text), Cooldown::ValidationBlocked(text.to_string()));
        }
        assert_eq!(cooldown(403, text), Cooldown::Forbidden(text.to_string()));
    }
    for text in ["permission denied", "account suspended"] {
        assert_eq!(cooldown(403, text), Cooldown::Forbidden(text.to_string()));
        assert_eq!(cooldown(400, text), Cooldown::NotNeeded);
    }
    assert_eq!(cooldown(403, "no"), Cooldown::Forbidden("no".to_string()));
    assert_eq!(cooldown(401, "no"), Cooldown::NotNeeded);
    assert_eq!(cooldown(429, "quota"), Cooldown::RateLimited("quota".to_string()));
}

#[test]
fn a_client_that_wants_failures_sees_the_second_one() {
    let mut state = GenerateState::new(3);
    ask(&mut state, "a");
    assert!(matches!(state.http_failed(429, "quota", None, None, true), HttpStep::Rotate(_)));
    ask(&mut state, "b");
    match state.http_failed(429, "quota", Some("8"), None, true) {
        HttpStep::Respond(Cooldown::RateLimited(_), reply) => {
            assert_eq!(reply.status, 429);
            assert_eq!(reply.retry_after.as_deref(), Some("8"));
        }
        other => panic!("unexpected step: {other:?}"),
    }
    assert!(state.excluded_account_ids().contains("b"));
}

#[test]
fn without_an_account_the_request_is_refused_or_ends() {
    let mut state = GenerateState::new(4);
    assert_eq!(state.next_attempt(), NextAttempt::Select);
    let refusal = state.token_failed("none").unwrap();
    assert_eq!(refusal.status, 503);
    assert_eq!(refusal.message, "Token error: none");

    let mut state = GenerateState::new(4);
    ask(&mut state, "a");
    state.http_failed(403, "", None, None, false);
    assert_eq!(state.next_attempt(), NextAttempt::Select);
    assert!(state.token_failed("all busy").is_none());
    let reply = state.finish();
    assert_eq!(reply.status, 403);
    assert_eq!(message(&reply), "Token error after pool attempts: all busy");
}

#[test]
fn a_request_without_any_event_still_tells_why() {
    let reply = GenerateState::new(0).finish();
    assert_eq!(reply.status, 502);
    assert_eq!(message(&reply), "No eligible AGM account could complete the request");
    assert_eq!(reply.account_email, None);
}

#[test]
fn no_wait_runs_after_the_last_attempt() {
    let mut state = GenerateState::new(0);
    assert_eq!(state.max_account_attempts(), 1);
    ask(&mut state, "a");
    assert!(state.transport_failed("reset".to_string()));
    ask_again(&mut state, "a");
    assert_eq!(state.stream_started(StreamStart::Ended), StreamStep::Retry);
    ask_again(&mut state, "a");
    assert!(matches!(
        state.http_failed(400, "Invalid signature", None, None, false),
        HttpStep::RepairAndRetry(Some(_))
    ));
    ask_again(&mut state, "a");
    assert_eq!(state.request_attempts(), state.max_request_attempts());
    assert!(matches!(
        state.http_failed(429, "quota", None, Some(10), false),
        HttpStep::WaitAndRetry(None)
    ));
    assert_eq!(state.next_attempt(), NextAttempt::Finish);
    assert_eq!(message(&state.finish()), "HTTP 429: quota");
}

#[test]
fn a_validation_block_lasts_ten_minutes() {
    assert_eq!(validation_block_until(1_000), 1_600);
    assert_eq!(validation_block_until(-600), 0);
}

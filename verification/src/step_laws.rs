//! What the steps of a request are for, said of what is handed in and what comes out.

use crate::accounts::AccountSet;
use crate::failover::{
    asks_for_validation, hints_at_validation, http_error, is_signature_failure,
    validation_block_until, Cooldown, GeminiAccount, GenerateState, GenerateView,
    HttpStep, NextAttempt, PhaseView, StreamStart, StreamStep,
};
use crate::failure_laws::{
    has_auth_marker, has_capacity_marker, has_limit_marker, lemma_markers,
};
use crate::gemini::ErrorReply;
use crate::models::Refusal;
use crate::pool_retry::{sanitize_error, sanitized, PoolAttemptState, PoolFailureScope};
use crate::reply_laws::{characters, lemma_reply, replies_with};
use crate::retry_laws::lasts;
use crate::text::{decimal, lowered};
use crate::text_laws::{
    is_numeral_of, law_numeral_stands_for_its_number, law_occurrence_is_a_split, stands_in,
};
use vstd::prelude::*;
use vstd::string::*;

verus! {

/// The most accounts that a request selects from a pool of this size.
pub open spec fn most_accounts(pool_size: nat) -> nat {
    if pool_size == 0 {
        1
    } else if pool_size <= 10 {
        pool_size
    } else {
        10
    }
}

/// A bad request for a signature that was not accepted.
pub open spec fn is_bad_signature(status: u16, text: Seq<char>) -> bool {
    &&& status == 400
    &&& {
        ||| stands_in(text, "Invalid `signature`"@)
        ||| stands_in(text, "thinking.signature"@)
        ||| stands_in(text, "Invalid signature"@)
        ||| stands_in(text, "Corrupted thought signature"@)
    }
}

/// A failure of the account: it is not authorized, or it ran into a limit.
pub open spec fn is_account_fault(status: u16, text: Seq<char>) -> bool {
    ||| status == 401 || status == 403
    ||| has_auth_marker(text)
    ||| status == 429 && has_limit_marker(text)
}

/// The account is asked once more with the request repaired.
pub open spec fn is_repaired(view: GenerateView, status: u16, text: Seq<char>) -> bool {
    is_bad_signature(status, text) && !view.signature_retried.contains(view.account().account_id)
}

/// The account is asked once more after the short wait that the provider asks for.
pub open spec fn is_waited_out(view: GenerateView, status: u16, delay_ms: Option<u64>) -> bool {
    &&& status == 429
    &&& delay_ms matches Some(ms) && ms <= 2000
    &&& !view.grace_retried.contains(view.account().account_id)
}

proof fn lemma_signature(status: u16, text: Seq<char>)
    ensures
        is_bad_signature(status, text) <==> is_signature_failure(status, text),
{
    law_occurrence_is_a_split(text, "Invalid `signature`"@);
    law_occurrence_is_a_split(text, "thinking.signature"@);
    law_occurrence_is_a_split(text, "Invalid signature"@);
    law_occurrence_is_a_split(text, "Corrupted thought signature"@);
}

/// After a failure that came with a response: a bad signature is repaired and a short delay waited
/// out, once each on an account; a client that wants failures sees them from the second attempt on; a
/// failure of the account leads to another account while one may be selected, else to the end; any
/// other failure is replied.
pub proof fn law_what_follows_a_failure(
    status: u16,
    text: &str,
    retry_after: Option<&str>,
    delay_ms: Option<u64>,
    let_it_crash: bool,
)
    ensures
        forall|state: &mut GenerateState, step: HttpStep| #[trigger]
            call_ensures(
                GenerateState::http_failed,
                (state, status, text, retry_after, delay_ms, let_it_crash),
                step,
            ) && (*state)@.well_formed() && (*state)@.phase is Attempting ==> {
                let view = (*state)@;
                let repaired = is_repaired(view, status, text@);
                let waited = !repaired && is_waited_out(view, status, delay_ms);
                let shown = let_it_crash && view.requests > 1;
                let room = view.selected.len() < most_accounts(view.pool.pool_size);
                let more = view.requests < 4 * most_accounts(view.pool.pool_size);
                &&& repaired ==> (step matches HttpStep::RepairAndRetry(wait) && (wait is Some
                    <==> more) && (wait is Some ==> lasts(wait->0, 200)))
                &&& waited ==> (step matches HttpStep::WaitAndRetry(wait) && (wait is Some <==> more)
                    && (wait is Some ==> lasts(wait->0, delay_ms->0 + 100)))
                &&& !repaired && !waited ==> if shown {
                    step is Respond
                } else if is_account_fault(status, text@) {
                    if room {
                        step is Rotate
                    } else {
                        step is Finish
                    }
                } else {
                    step is Respond
                }
            },
{
    lemma_markers(text@);
    lemma_signature(status, text@);
}

/// A reply to a failure is that failure: the status, the text and the `Retry-After` of the upstream,
/// with the account and the model that were asked.
pub proof fn law_reply_is_the_upstreams(
    status: u16,
    text: &str,
    retry_after: Option<&str>,
    delay_ms: Option<u64>,
    let_it_crash: bool,
)
    ensures
        forall|state: &mut GenerateState, step: HttpStep| #[trigger]
            call_ensures(
                GenerateState::http_failed,
                (state, status, text, retry_after, delay_ms, let_it_crash),
                step,
            ) ==> (step matches HttpStep::Respond(_, reply) ==> replies_with(
                reply,
                status,
                text@,
                Some((*state)@.account().email),
                (*state)@.last_mapped_model,
                characters(retry_after),
            )),
{
    assert forall|state: &mut GenerateState, step: HttpStep| #[trigger]
        call_ensures(
            GenerateState::http_failed,
            (state, status, text, retry_after, delay_ms, let_it_crash),
            step,
        ) && step is Respond implies replies_with(
        step->Respond_1,
        status,
        text@,
        Some((*state)@.account().email),
        (*state)@.last_mapped_model,
        characters(retry_after),
    ) by {
        lemma_reply(
            step->Respond_1,
            status,
            text@,
            Some((*state)@.account().email),
            (*state)@.last_mapped_model,
            characters(retry_after),
        );
    }
}

/// A text that asks for the account to be verified, in whatever letters.
pub open spec fn demands_verification(text: Seq<char>) -> bool {
    ||| stands_in(lowered(text), "validation_required"@)
    ||| stands_in(lowered(text), "verify your account"@)
    ||| stands_in(lowered(text), "validation_url"@)
    ||| stands_in(lowered(text), "validationurl"@)
}

/// A text that tells of a verification or a risk control in other words, in whatever letters.
pub open spec fn alludes_to_verification(text: Seq<char>) -> bool {
    ||| stands_in(lowered(text), "account verification"@)
    ||| stands_in(lowered(text), "validation url"@)
    ||| stands_in(lowered(text), "appeal_url"@)
    ||| stands_in(lowered(text), "further action is required"@)
    ||| stands_in(lowered(text), "risk-control"@)
    ||| stands_in(lowered(text), "risk_control"@)
    ||| stands_in(lowered(text), "risk control"@)
}

proof fn lemma_verification(text: Seq<char>)
    ensures
        demands_verification(text) <==> asks_for_validation(lowered(text)),
        alludes_to_verification(text) <==> hints_at_validation(lowered(text)),
{
    let low = lowered(text);
    law_occurrence_is_a_split(low, "validation_required"@);
    law_occurrence_is_a_split(low, "verify your account"@);
    law_occurrence_is_a_split(low, "validation_url"@);
    law_occurrence_is_a_split(low, "validationurl"@);
    law_occurrence_is_a_split(low, "account verification"@);
    law_occurrence_is_a_split(low, "validation url"@);
    law_occurrence_is_a_split(low, "appeal_url"@);
    law_occurrence_is_a_split(low, "further action is required"@);
    law_occurrence_is_a_split(low, "risk-control"@);
    law_occurrence_is_a_split(low, "risk_control"@);
    law_occurrence_is_a_split(low, "risk control"@);
}

/// The cooldown that a step asks for; none where the same account is asked again.
pub open spec fn cooldown_of(step: HttpStep) -> Option<Cooldown> {
    match step {
        HttpStep::Rotate(cooldown) => Some(cooldown),
        HttpStep::Finish(cooldown) => Some(cooldown),
        HttpStep::Respond(cooldown, _) => Some(cooldown),
        _ => None,
    }
}

/// An account that ran into a limit is marked as limited; one that has to be verified is blocked; one
/// that is forbidden is marked so; no other account rests. The reason is what is stored of the error.
pub proof fn law_account_rests_for_its_fault(
    status: u16,
    text: &str,
    retry_after: Option<&str>,
    delay_ms: Option<u64>,
    let_it_crash: bool,
    stored: String,
)
    requires
        call_ensures(sanitize_error, (text,), stored),
    ensures
        forall|state: &mut GenerateState, step: HttpStep| #[trigger]
            call_ensures(
                GenerateState::http_failed,
                (state, status, text, retry_after, delay_ms, let_it_crash),
                step,
            ) ==> (cooldown_of(step) matches Some(cooldown) ==> {
                let unauthorized = status == 401 || status == 403 || has_auth_marker(text@);
                let blocked = unauthorized && (demands_verification(text@) || (status != 403
                    && alludes_to_verification(text@)));
                let forbidden = !blocked && status == 403;
                let limited = !unauthorized && status == 429 && has_limit_marker(text@);
                &&& limited <==> cooldown is RateLimited
                &&& blocked <==> cooldown is ValidationBlocked
                &&& forbidden <==> cooldown is Forbidden
                &&& cooldown matches Cooldown::RateLimited(reason) ==> reason@ == stored@
                &&& cooldown matches Cooldown::ValidationBlocked(reason) ==> reason@ == stored@
                &&& cooldown matches Cooldown::Forbidden(reason) ==> reason@ == stored@
            }),
{
    lemma_markers(text@);
    lemma_verification(text@);
}

/// What no failure changes: the attempts begun, the accounts selected, the size of the pool, and the
/// account and model last asked.
pub open spec fn keeps_course(before: GenerateView, later: GenerateView) -> bool {
    &&& later.requests == before.requests
    &&& later.selected == before.selected
    &&& later.pool.pool_size == before.pool.pool_size
    &&& later.last_email == before.last_email
    &&& later.last_mapped_model == before.last_mapped_model
}

/// The next attempt uses the account of this one, and nothing is held against it.
pub open spec fn asks_again(before: GenerateView, later: GenerateView) -> bool {
    &&& later.retry_account == Some(before.account())
    &&& !later.force_rotate
    &&& later.phase == PhaseView::Ready
    &&& later.pool == before.pool
    &&& later.excluded == before.excluded
}

/// `later` holds what `before` does, and this account.
pub open spec fn adds(before: Set<Seq<char>>, later: Set<Seq<char>>, id: Seq<char>) -> bool {
    forall|other: Seq<char>| #[trigger]
        later.contains(other) <==> before.contains(other) || other == id
}

/// What is kept of a failure that came with a response: its status and text; and either that the
/// account was asked again, which is remembered for the reason alone, or the failure itself, by which
/// the account is excluded exactly if the fault is its own.
pub proof fn law_failure_is_remembered(
    status: u16,
    text: &str,
    retry_after: Option<&str>,
    delay_ms: Option<u64>,
    let_it_crash: bool,
    stored: String,
)
    requires
        call_ensures(sanitize_error, (text,), stored),
    ensures
        forall|state: &mut GenerateState, step: HttpStep| #[trigger]
            call_ensures(
                GenerateState::http_failed,
                (state, status, text, retry_after, delay_ms, let_it_crash),
                step,
            ) && (*state)@.well_formed() && (*state)@.phase is Attempting ==> {
                let before = (*state)@;
                let later = (*final(state))@;
                let id = before.account().account_id;
                &&& keeps_course(before, later)
                &&& later.transport_retried == before.transport_retried
                &&& later.stream_retried == before.stream_retried
                &&& exists|numeral: Seq<char>|
                    is_numeral_of(numeral, status as nat) && later.last_error == #[trigger] (
                    "HTTP "@ + numeral + ": "@ + text@)
                &&& step is RepairAndRetry ==> {
                    &&& asks_again(before, later)
                    &&& adds(before.signature_retried, later.signature_retried, id)
                    &&& later.grace_retried == before.grace_retried
                }
                &&& step is WaitAndRetry ==> {
                    &&& asks_again(before, later)
                    &&& adds(before.grace_retried, later.grace_retried, id)
                    &&& later.signature_retried == before.signature_retried
                }
                &&& !(step is RepairAndRetry) && !(step is WaitAndRetry) ==> {
                    &&& later.signature_retried == before.signature_retried
                    &&& later.grace_retried == before.grace_retried
                    &&& later.retry_account is None
                    &&& adds(before.pool.attempted, later.pool.attempted, id)
                    &&& later.pool.last_failure matches Some(last) && {
                        &&& last.status == status
                        &&& last.retry_after == characters(retry_after)
                        &&& last.sanitized_error == stored@
                        &&& last.scope == PoolFailureScope::AccountAuth <==> status == 401 || status
                            == 403 || has_auth_marker(text@)
                        &&& last.scope == PoolFailureScope::AccountModel <==> is_account_fault(
                            status,
                            text@,
                        ) && last.scope != PoolFailureScope::AccountAuth
                        &&& last.scope == PoolFailureScope::ProviderModel <==> status == 503
                            && has_capacity_marker(text@) && !has_auth_marker(text@)
                    }
                    &&& is_account_fault(status, text@) ==> adds(before.excluded, later.excluded, id)
                        && adds(before.pool.limited, later.pool.limited, id)
                    &&& !is_account_fault(status, text@) ==> later.excluded == before.excluded
                        && later.pool.limited == before.pool.limited
                    &&& step is Rotate ==> later.phase == PhaseView::Ready && later.force_rotate
                    &&& !(step is Rotate) ==> later.phase == PhaseView::Finished
                        && later.force_rotate == before.force_rotate
                }
            },
{
    lemma_markers(text@);
    law_numeral_stands_for_its_number(status as nat);
    assert forall|state: &mut GenerateState, step: HttpStep| #[trigger]
        call_ensures(
            GenerateState::http_failed,
            (state, status, text, retry_after, delay_ms, let_it_crash),
            step,
        ) && (*state)@.well_formed() && (*state)@.phase is Attempting implies exists|
        numeral: Seq<char>,
    |
        is_numeral_of(numeral, status as nat) && (*final(state))@.last_error == #[trigger] ("HTTP "@
            + numeral + ": "@ + text@) by {
        assert((*final(state))@.last_error == http_error(status, text@));
        let numeral = decimal(status as nat);
        assert((*final(state))@.last_error == "HTTP "@ + numeral + ": "@ + text@);
    }
}

/// The failure that counts is now one without a response, unless one with a response counted before;
/// the account is attempted and excluded, and the request ends.
pub open spec fn gives_up(before: GenerateView, later: GenerateView, stored: Seq<char>) -> bool {
    let id = before.account().account_id;
    &&& later.phase == PhaseView::Finished
    &&& later.retry_account is None
    &&& later.force_rotate == before.force_rotate
    &&& adds(before.pool.attempted, later.pool.attempted, id)
    &&& adds(before.excluded, later.excluded, id)
    &&& later.pool.limited == before.pool.limited
    &&& later.pool.rate_limited == before.pool.rate_limited
    &&& if before.pool.last_failure is Some && before.pool.last_failure->0.scope
        != PoolFailureScope::Transport {
        later.pool.last_failure == before.pool.last_failure
    } else {
        later.pool.last_failure matches Some(last) && last.status == 0 && last.scope
            == PoolFailureScope::Transport && last.retry_after is None && last.sanitized_error
            == stored
    }
}

/// Where the upstream could not be reached, the account is asked once more; when that fails too, the
/// request ends. The error is kept.
pub proof fn law_lost_connection_is_tried_once_more(error: String, text: &str, stored: String)
    requires
        text@ == error@,
        call_ensures(sanitize_error, (text,), stored),
    ensures
        forall|state: &mut GenerateState, retries: bool| #[trigger]
            call_ensures(GenerateState::transport_failed, (state, error), retries)
                && (*state)@.well_formed() && (*state)@.phase is Attempting ==> {
                let before = (*state)@;
                let later = (*final(state))@;
                let id = before.account().account_id;
                &&& keeps_course(before, later)
                &&& later.last_error == error@
                &&& later.grace_retried == before.grace_retried
                &&& later.signature_retried == before.signature_retried
                &&& later.stream_retried == before.stream_retried
                &&& retries <==> !before.transport_retried.contains(id)
                &&& adds(before.transport_retried, later.transport_retried, id)
                &&& retries ==> asks_again(before, later)
                &&& !retries ==> gives_up(before, later, stored@)
            },
{
}

/// A stream whose first chunk holds something is passed on, and nothing changes. One that begins
/// otherwise is asked for once more from the account; when that fails too, the request ends. The
/// error tells what was wrong.
pub proof fn law_stream_that_does_not_start_is_tried_once_more(start: StreamStart)
    ensures
        forall|state: &mut GenerateState, step: StreamStep| #[trigger]
            call_ensures(GenerateState::stream_started, (state, start), step)
                && (*state)@.well_formed() && (*state)@.phase is Attempting ==> {
                let before = (*state)@;
                let later = (*final(state))@;
                let id = before.account().account_id;
                let serves = start matches StreamStart::Chunk(bytes) && bytes > 0;
                &&& step == StreamStep::Serve <==> serves
                &&& serves ==> later == before
                &&& !serves ==> {
                    &&& keeps_course(before, later)
                    &&& later.grace_retried == before.grace_retried
                    &&& later.signature_retried == before.signature_retried
                    &&& later.transport_retried == before.transport_retried
                    &&& step == StreamStep::Retry <==> !before.stream_retried.contains(id)
                    &&& adds(before.stream_retried, later.stream_retried, id)
                    &&& step == StreamStep::Retry ==> asks_again(before, later)
                    &&& step == StreamStep::Finish ==> gives_up(
                        before,
                        later,
                        sanitized(later.last_error),
                    )
                    &&& match start {
                        StreamStart::Error(error) => later.last_error == "Stream error: "@ + error@,
                        StreamStart::Ended => later.last_error == "Empty response"@,
                        StreamStart::TimedOut => later.last_error == "First chunk timeout"@,
                        StreamStart::Chunk(_) => if before.last_error.len() > 0 {
                            later.last_error == before.last_error
                        } else {
                            later.last_error == "Empty or incomplete upstream stream"@
                        },
                    }
                }
            },
{
    reveal_strlit("Stream error: ");
    reveal_strlit("Empty response");
    reveal_strlit("First chunk timeout");
    assert("Empty response"@.len() > 0 && "First chunk timeout"@.len() > 0);
    if let StreamStart::Error(error) = start {
        assert(("Stream error: "@ + error@).len() > 0);
    }
}

/// Everything but the attempts begun, the account at hand and the phase is as before.
pub open spec fn keeps_record(before: GenerateView, later: GenerateView) -> bool {
    &&& later.pool == before.pool
    &&& later.excluded == before.excluded
    &&& later.grace_retried == before.grace_retried
    &&& later.signature_retried == before.signature_retried
    &&& later.transport_retried == before.transport_retried
    &&& later.stream_retried == before.stream_retried
    &&& later.force_rotate == before.force_rotate
}

/// The next attempt begins while fewer than four times as many attempts as accounts may be selected
/// were made, with the account that is to be asked again if there is one, else with a new one if one
/// may be selected; otherwise the request ends.
pub proof fn law_next_attempt()
    ensures
        forall|state: &mut GenerateState, next: NextAttempt| #[trigger]
            call_ensures(GenerateState::next_attempt, (state,), next) && (*state)@.well_formed()
                && (*state)@.phase is Ready ==> {
                let before = (*state)@;
                let later = (*final(state))@;
                let most = most_accounts(before.pool.pool_size);
                let more = before.requests < 4 * most;
                &&& keeps_record(before, later)
                &&& later.selected == before.selected
                &&& later.last_error == before.last_error
                &&& later.last_email == before.last_email
                &&& later.last_mapped_model == before.last_mapped_model
                &&& later.retry_account is None
                &&& match before.retry_account {
                    Some(account) => if more {
                        next == NextAttempt::Reuse && later.phase == PhaseView::Attempting(account)
                            && later.requests == before.requests + 1
                    } else {
                        next == NextAttempt::Finish && later.phase == PhaseView::Finished
                            && later.requests == before.requests
                    },
                    None => if more && before.selected.len() < most {
                        next == NextAttempt::Select && later.phase == PhaseView::Selecting
                            && later.requests == before.requests + 1
                    } else {
                        next == NextAttempt::Finish && later.phase == PhaseView::Finished
                            && later.requests == before.requests
                    },
                }
            },
{
}

/// A selected account is counted and asked; without one, a request that has asked none is refused
/// with 503, and any other ends with the reason; the account and the model asked are noted.
pub proof fn law_selection(account: GeminiAccount, error: &str, mapped_model: String)
    ensures
        forall|state: &mut GenerateState| #[trigger]
            call_ensures(GenerateState::account_selected, (state, account), ()) ==> {
                let before = (*state)@;
                let later = (*final(state))@;
                &&& keeps_record(before, later)
                &&& later.requests == before.requests
                &&& adds(before.selected, later.selected, account.account_id@)
                &&& later.phase matches PhaseView::Attempting(asked) && {
                    &&& asked.account_id == account.account_id@
                    &&& asked.access_token == account.access_token@
                    &&& asked.project_id == account.project_id@
                    &&& asked.email == account.email@
                }
            },
        forall|state: &mut GenerateState, refusal: Option<Refusal>| #[trigger]
            call_ensures(GenerateState::token_failed, (state, error), refusal) ==> {
                let before = (*state)@;
                let later = (*final(state))@;
                let none = forall|id: Seq<char>| !(#[trigger] before.selected.contains(id));
                &&& keeps_record(before, later)
                &&& later.phase == PhaseView::Finished
                &&& none ==> (refusal matches Some(refusal) && refusal.status == 503
                    && refusal.message@ == "Token error: "@ + error@) && later.last_error
                    == before.last_error
                &&& !none ==> refusal is None && later.last_error
                    == "Token error after pool attempts: "@ + error@
            },
        forall|state: &mut GenerateState| #[trigger]
            call_ensures(GenerateState::call_started, (state, mapped_model), ()) ==> {
                let before = (*state)@;
                let later = (*final(state))@;
                &&& keeps_record(before, later)
                &&& later.requests == before.requests
                &&& later.selected == before.selected
                &&& later.phase == before.phase
                &&& later.last_error == before.last_error
                &&& later.last_email == Some(before.account().email)
                &&& later.last_mapped_model == Some(mapped_model@)
            },
{
    assert forall|state: &mut GenerateState, refusal: Option<Refusal>| #[trigger]
        call_ensures(GenerateState::token_failed, (state, error), refusal) implies ((*state)@.selected
        == Set::<Seq<char>>::empty() <==> forall|id: Seq<char>|
        !(#[trigger] (*state)@.selected.contains(id))) by {
        if forall|id: Seq<char>| !(#[trigger] (*state)@.selected.contains(id)) {
            assert((*state)@.selected =~= Set::<Seq<char>>::empty());
        }
    }
}

/// A request that ends without a result replies with the status of its record, tells the failure that
/// counts, or else the last error, or else that no account was eligible, and carries the account and
/// the model last asked and the `Retry-After` of the failure that counts.
pub proof fn law_final_reply(state: &GenerateState, reply: ErrorReply)
    requires
        call_ensures(GenerateState::finish, (state,), reply),
    ensures
        ({
            let view = state@;
            let told = match view.pool.last_failure {
                Some(last) => last.sanitized_error,
                None => Seq::empty(),
            };
            replies_with(
                reply,
                view.pool.terminal_status(),
                if told.len() > 0 {
                    told
                } else if view.last_error.len() > 0 {
                    view.last_error
                } else {
                    "No eligible AGM account could complete the request"@
                },
                view.last_email,
                view.last_mapped_model,
                match view.pool.last_failure {
                    Some(last) => last.retry_after,
                    None => None,
                },
            )
        }),
{
    let view = state@;
    lemma_reply(
        reply,
        view.pool.terminal_status(),
        view.final_error(),
        view.last_email,
        view.last_mapped_model,
        view.pool.retry_after(),
    );
}

/// A new request has selected and excluded nobody, and may select as many accounts as the pool has,
/// at least one and at most ten, and make four attempts for each. A block for verification lasts ten
/// minutes.
pub proof fn law_new_request(
    pool_size: usize,
    state: GenerateState,
    accounts: usize,
    requests: usize,
    now: i64,
    until: i64,
)
    requires
        call_ensures(GenerateState::new, (pool_size,), state),
        call_ensures(GenerateState::max_account_attempts, (&state,), accounts),
        call_ensures(GenerateState::max_request_attempts, (&state,), requests),
        call_ensures(validation_block_until, (now,), until),
    ensures
        accounts == most_accounts(pool_size as nat),
        requests == 4 * accounts,
        state@.requests == 0,
        state@.selected == Set::<Seq<char>>::empty(),
        state@.excluded == Set::<Seq<char>>::empty(),
        state@.pool.attempted == Set::<Seq<char>>::empty(),
        state@.pool.pool_size == pool_size,
        state@.grace_retried == Set::<Seq<char>>::empty(),
        state@.signature_retried == Set::<Seq<char>>::empty(),
        state@.transport_retried == Set::<Seq<char>>::empty(),
        state@.stream_retried == Set::<Seq<char>>::empty(),
        state@.retry_account is None,
        !state@.force_rotate,
        state@.last_error.len() == 0,
        state@.last_email is None,
        state@.last_mapped_model is None,
        state@.phase == PhaseView::Ready,
        until == now + 600,
{
}

/// A request tells what it holds: the attempts begun, how many accounts were selected, those that are
/// excluded, whether another one is wanted, and the account at hand.
pub proof fn law_request_tells_what_it_holds(
    state: &GenerateState,
    attempts: usize,
    selected: usize,
    excluded: &AccountSet,
    force: bool,
    account: Option<&GeminiAccount>,
    record: &PoolAttemptState,
)
    requires
        call_ensures(GenerateState::request_attempts, (state,), attempts),
        call_ensures(GenerateState::selected_account_count, (state,), selected),
        call_ensures(GenerateState::excluded_account_ids, (state,), excluded),
        call_ensures(GenerateState::force_rotate, (state,), force),
        call_ensures(GenerateState::account, (state,), account),
        call_ensures(GenerateState::pool_attempts, (state,), record),
    ensures
        attempts == state@.requests,
        selected == state@.selected.len(),
        excluded@ == state@.excluded,
        force == state@.force_rotate,
        account is Some <==> state@.phase is Attempting,
        account matches Some(at_hand) ==> {
            &&& at_hand.account_id@ == state@.account().account_id
            &&& at_hand.access_token@ == state@.account().access_token
            &&& at_hand.project_id@ == state@.account().project_id
            &&& at_hand.email@ == state@.account().email
        },
        record@ == state@.pool,
{
}

} // verus!

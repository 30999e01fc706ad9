//! What the classification of failures and the storing of errors are for, said of their results.

use crate::accounts::AccountSet;
use crate::pool_retry::{
    classify_pool_failure, gemini_retry_action, limit_error, mentions_account_auth,
    mentions_account_limit, mentions_provider_capacity, openai_retry_action, sanitize_error,
    GeminiRetryAction, OpenAiRetryAction, PoolAttemptState, PoolFailure, PoolFailureScope,
    RetryDisposition,
};
use crate::redaction::{
    has_body_label, holds_credential, holds_secret, names_scheme, names_secret, redact,
    without_credentials, without_secrets,
};
use crate::text::{lowered, occurs};
use crate::text_laws::{law_occurrence_is_a_split, stands_in};
use vstd::prelude::*;
use vstd::string::*;

verus! {

/// Words, in small letters, by which an account is told to be verified or to lack a permission.
pub open spec fn is_auth_marker(marker: Seq<char>) -> bool {
    ||| marker == "verify your account"@
    ||| marker == "account verification"@
    ||| marker == "validation_required"@
    ||| marker == "validation_url"@
    ||| marker == "validationurl"@
    ||| marker == "validation url"@
    ||| marker == "appeal_url"@
    ||| marker == "further action is required"@
    ||| marker == "risk-control"@
    ||| marker == "risk_control"@
    ||| marker == "risk control"@
    ||| marker == "permission denied"@
    ||| marker == "insufficient permissions"@
    ||| marker == "account suspended"@
    ||| marker == "account disabled"@
}

/// Words, in small letters, that tell of a rate or quota limit.
pub open spec fn is_limit_marker(marker: Seq<char>) -> bool {
    ||| marker == "quota"@
    ||| marker == "rate limit"@
    ||| marker == "rate_limit"@
    ||| marker == "resource exhausted"@
    ||| marker == "resource_exhausted"@
    ||| marker == "capacity on this model"@
    ||| marker == "account capacity"@
    ||| marker == "reset after"@
    ||| marker == "retry after"@
}

/// Words, in small letters, that tell of a provider without capacity.
pub open spec fn is_capacity_marker(marker: Seq<char>) -> bool {
    ||| marker == "no capacity available for model"@
    ||| marker == "model_capacity_exhausted"@
}

/// A text in which a marker of an account stands, in whatever letters.
pub open spec fn has_auth_marker(text: Seq<char>) -> bool {
    exists|marker: Seq<char>| #[trigger]
        is_auth_marker(marker) && stands_in(lowered(text), marker)
}

/// A text in which a marker of a limit stands, in whatever letters.
pub open spec fn has_limit_marker(text: Seq<char>) -> bool {
    exists|marker: Seq<char>| #[trigger]
        is_limit_marker(marker) && stands_in(lowered(text), marker)
}

/// A text in which a marker of a provider without capacity stands, in whatever letters.
pub open spec fn has_capacity_marker(text: Seq<char>) -> bool {
    exists|marker: Seq<char>| #[trigger]
        is_capacity_marker(marker) && stands_in(lowered(text), marker)
}

/// The markers are those that the classification looks for.
pub proof fn lemma_markers(text: Seq<char>)
    ensures
        has_auth_marker(text) <==> mentions_account_auth(lowered(text)),
        has_limit_marker(text) <==> mentions_account_limit(lowered(text)),
        has_capacity_marker(text) <==> mentions_provider_capacity(lowered(text)),
{
    let low = lowered(text);
    assert forall|marker: Seq<char>|
        #![trigger occurs(low, marker)]
        #![trigger stands_in(low, marker)]
        occurs(low, marker) == stands_in(low, marker) by {
        law_occurrence_is_a_split(low, marker);
    }
    if mentions_account_auth(low) {
        assert(is_auth_marker("verify your account"@));
        assert(is_auth_marker("account verification"@));
        assert(is_auth_marker("validation_required"@));
        assert(is_auth_marker("validation_url"@));
        assert(is_auth_marker("validationurl"@));
        assert(is_auth_marker("validation url"@));
        assert(is_auth_marker("appeal_url"@));
        assert(is_auth_marker("further action is required"@));
        assert(is_auth_marker("risk-control"@));
        assert(is_auth_marker("risk_control"@));
        assert(is_auth_marker("risk control"@));
        assert(is_auth_marker("permission denied"@));
        assert(is_auth_marker("insufficient permissions"@));
        assert(is_auth_marker("account suspended"@));
        assert(is_auth_marker("account disabled"@));
    }
    if mentions_account_limit(low) {
        assert(is_limit_marker("quota"@));
        assert(is_limit_marker("rate limit"@));
        assert(is_limit_marker("rate_limit"@));
        assert(is_limit_marker("resource exhausted"@));
        assert(is_limit_marker("resource_exhausted"@));
        assert(is_limit_marker("capacity on this model"@));
        assert(is_limit_marker("account capacity"@));
        assert(is_limit_marker("reset after"@));
        assert(is_limit_marker("retry after"@));
    }
    if mentions_provider_capacity(low) {
        assert(is_capacity_marker("no capacity available for model"@));
        assert(is_capacity_marker("model_capacity_exhausted"@));
    }
}

/// A 401, a 403, or any failure whose text holds a marker of an account, is one of the account,
/// whatever else stands in the text: another account is asked for, and this one rests.
pub proof fn law_account_failures_are_recognised(
    status: u16,
    text: &str,
    retry_after: Option<&str>,
    failure: PoolFailure,
)
    requires
        call_ensures(classify_pool_failure, (status, text, retry_after), failure),
        status == 401 || status == 403 || has_auth_marker(text@),
    ensures
        failure.scope == PoolFailureScope::AccountAuth,
        failure.disposition == RetryDisposition::RotateAccount,
{
    lemma_markers(text@);
}

/// A 429 whose text holds a marker of a limit, and none of an account, is a limit of the account
/// for the model, whatever else stands in the text: another account is asked for.
pub proof fn law_limits_are_recognised(
    text: &str,
    retry_after: Option<&str>,
    before: Seq<char>,
    marker: Seq<char>,
    rest: Seq<char>,
    failure: PoolFailure,
)
    requires
        call_ensures(classify_pool_failure, (429u16, text, retry_after), failure),
        is_limit_marker(marker),
        lowered(text@) == before + marker + rest,
        !has_auth_marker(text@),
    ensures
        failure.scope == PoolFailureScope::AccountModel,
        failure.disposition == RetryDisposition::RotateAccount,
{
    lemma_markers(text@);
    assert(stands_in(lowered(text@), marker));
}

/// A 503 whose text holds a marker of a provider without capacity, and none of an account, is the
/// provider's, whatever else stands in the text: no other account is asked for.
pub proof fn law_provider_capacity_is_recognised(
    text: &str,
    retry_after: Option<&str>,
    before: Seq<char>,
    marker: Seq<char>,
    rest: Seq<char>,
    failure: PoolFailure,
)
    requires
        call_ensures(classify_pool_failure, (503u16, text, retry_after), failure),
        is_capacity_marker(marker),
        lowered(text@) == before + marker + rest,
        !has_auth_marker(text@),
    ensures
        failure.scope == PoolFailureScope::ProviderModel,
        failure.disposition == RetryDisposition::Return,
{
    lemma_markers(text@);
    assert(stands_in(lowered(text@), marker));
}

/// A failure that none of these describes is unknown, and asks for nothing.
pub proof fn law_other_failures_are_unknown(
    status: u16,
    text: &str,
    retry_after: Option<&str>,
    failure: PoolFailure,
)
    requires
        call_ensures(classify_pool_failure, (status, text, retry_after), failure),
        status != 401,
        status != 403,
        !has_auth_marker(text@),
        status == 429 ==> !has_limit_marker(text@),
        status == 503 ==> !has_capacity_marker(text@),
    ensures
        failure.scope == PoolFailureScope::Unknown,
        failure.disposition == RetryDisposition::Return,
{
    lemma_markers(text@);
}

/// A classified failure tells the status and the `Retry-After` that came, and rests its account
/// exactly if it is one of the account; one without a response has neither.
pub proof fn law_failure_tells_what_came(
    status: u16,
    text: &str,
    retry_after: Option<&str>,
    failure: PoolFailure,
    cut_off: PoolFailure,
    rests: bool,
)
    requires
        call_ensures(classify_pool_failure, (status, text, retry_after), failure),
        call_ensures(PoolFailure::transport, (text,), cut_off),
        call_ensures(PoolFailure::should_cooldown_account, (&failure,), rests),
    ensures
        failure.status == status,
        retry_after matches Some(value) ==> failure.retry_after matches Some(kept) && kept@
            == value@,
        retry_after is None ==> failure.retry_after is None,
        rests <==> failure.scope == PoolFailureScope::AccountAuth || failure.scope
            == PoolFailureScope::AccountModel,
        rests <==> failure.disposition == RetryDisposition::RotateAccount,
        cut_off.status == 0,
        cut_off.scope == PoolFailureScope::Transport,
        cut_off.disposition == RetryDisposition::Return,
        cut_off.retry_after is None,
        cut_off.sanitized_error@ == failure.sanitized_error@,
{
}

/// After a failure of the account another one is tried while one may be; a provider without
/// capacity is told as it is; any other failure ends the request. Both protocols do the same.
pub proof fn law_actions_follow_the_scope(
    failure: &PoolFailure,
    remaining: usize,
    gemini: GeminiRetryAction,
    openai: OpenAiRetryAction,
)
    requires
        call_ensures(gemini_retry_action, (failure, remaining), gemini),
        call_ensures(openai_retry_action, (failure, remaining), openai),
    ensures
        match failure.scope {
            PoolFailureScope::AccountAuth | PoolFailureScope::AccountModel => if remaining > 0 {
                gemini == GeminiRetryAction::CooldownAndRotate && openai
                    == OpenAiRetryAction::CooldownAndRotate
            } else {
                gemini == GeminiRetryAction::ReturnFailure && openai
                    == OpenAiRetryAction::ReturnFailure
            },
            PoolFailureScope::ProviderModel => gemini == GeminiRetryAction::ReturnProviderStatus
                && openai == OpenAiRetryAction::ReturnProviderStatus,
            PoolFailureScope::Transport | PoolFailureScope::Unknown => gemini
                == GeminiRetryAction::ReturnFailure && openai == OpenAiRetryAction::ReturnFailure,
        },
{
}

/// `cut` is `text` where it has at most 1024 characters; else it begins with the first 1021 of them
/// and ends with three dots.
pub open spec fn is_cut_of(cut: Seq<char>, text: Seq<char>) -> bool {
    if text.len() <= 1024 {
        cut == text
    } else {
        &&& cut.len() == 1024
        &&& forall|i: int| 0 <= i < 1021 ==> #[trigger] cut[i] == text[i]
        &&& forall|i: int| 1021 <= i < 1024 ==> #[trigger] cut[i] == '.'
    }
}

/// A long text is cut at its end: it begins as before, and three dots tell that it was cut.
pub proof fn law_long_text_keeps_its_beginning(text: &str, out: String)
    requires
        call_ensures(limit_error, (text,), out),
    ensures
        is_cut_of(out@, text@),
{
    reveal_strlit("...");
}

/// A stored error is the redacted text, cut at its end where it is long; a failure stores just that.
pub proof fn law_stored_error_keeps_its_beginning(
    status: u16,
    text: &str,
    retry_after: Option<&str>,
    clean: String,
    stored: String,
    failure: PoolFailure,
    cut_off: PoolFailure,
)
    requires
        call_ensures(redact, (text,), clean),
        call_ensures(sanitize_error, (text,), stored),
        call_ensures(classify_pool_failure, (status, text, retry_after), failure),
        call_ensures(PoolFailure::transport, (text,), cut_off),
    ensures
        is_cut_of(stored@, clean@),
        failure.sanitized_error@ == stored@,
        cut_off.sanitized_error@ == stored@,
{
    reveal_strlit("...");
}

/// An error without a request body, a credential or a secret is stored as it is, cut where it is
/// long.
pub proof fn law_harmless_error_is_kept(text: &str, clean: String, stored: String)
    requires
        call_ensures(redact, (text,), clean),
        call_ensures(sanitize_error, (text,), stored),
        !has_body_label(text@),
        !names_scheme(text@),
        !names_secret(text@),
    ensures
        clean@ == text@,
        is_cut_of(stored@, text@),
{
    reveal_strlit("...");
}

/// What stands before the first secret is kept, with the name of the secret and the sign behind it;
/// the secret gives way.
pub proof fn law_secret_gives_way(
    text: &str,
    before: Seq<char>,
    name: Seq<char>,
    sign: Seq<char>,
    secret: Seq<char>,
    rest: Seq<char>,
    clean: String,
)
    requires
        call_ensures(redact, (text,), clean),
        holds_secret(text@, before, name, sign, secret, rest),
        !has_body_label(text@),
        !names_scheme(text@),
    ensures
        exists|after: Seq<char>|
            clean@ == #[trigger] (before + name + sign + "[REDACTED]"@ + after),
{
    assert(clean@ == before + name + sign + "[REDACTED]"@ + without_secrets(rest));
}

/// What stands before the first credential is kept, with the scheme behind which it stands; the
/// credential gives way before any secret does.
pub proof fn law_credential_gives_way(
    text: &str,
    before: Seq<char>,
    scheme: Seq<char>,
    gap: Seq<char>,
    token: Seq<char>,
    rest: Seq<char>,
    clean: String,
)
    requires
        call_ensures(redact, (text,), clean),
        holds_credential(text@, before, scheme, gap, token, rest),
        !has_body_label(text@),
    ensures
        exists|after: Seq<char>|
            clean@ == without_secrets(
                #[trigger] (before + scheme + " [REDACTED]"@ + after),
            ),
{
    assert(clean@ == without_secrets(
        before + scheme + " [REDACTED]"@ + without_credentials(rest),
    ));
}

/// A request tries as many accounts as the pool has, ten at most.
pub proof fn law_account_attempts_are_capped(
    pool_size: usize,
    state: PoolAttemptState,
    permitted: usize,
)
    requires
        call_ensures(PoolAttemptState::new, (pool_size,), state),
        call_ensures(PoolAttemptState::max_account_attempts, (&state,), permitted),
    ensures
        permitted <= pool_size,
        permitted <= 10,
        permitted == pool_size || permitted == 10,
        state@.attempted == Set::<Seq<char>>::empty(),
        state@.limited == Set::<Seq<char>>::empty(),
        state@.rate_limited == Set::<Seq<char>>::empty(),
        state@.last_failure is None,
        state@.pool_size == pool_size,
{
}

/// A recorded failure adds its account to those attempted; to those that failed for a reason of
/// their own where it is one of the account; to those that ran into a limit where it is a limit. It
/// becomes the failure that counts unless it came without a response and one with a response counts
/// already. Nothing else changes.
pub proof fn law_recording_adds_the_failure(account_id: String, failure: PoolFailure)
    ensures
        forall|state: &mut PoolAttemptState| #[trigger]
            call_ensures(PoolAttemptState::record_failure, (state, account_id, failure), ()) ==> {
                let before = (*state)@;
                let later = (*final(state))@;
                let itself = failure.scope == PoolFailureScope::AccountAuth || failure.scope
                    == PoolFailureScope::AccountModel;
                let yields = failure.scope == PoolFailureScope::Transport && (
                before.last_failure matches Some(last) && last.scope
                    != PoolFailureScope::Transport);
                &&& forall|id: Seq<char>| #[trigger]
                    later.attempted.contains(id) <==> before.attempted.contains(id) || id
                        == account_id@
                &&& forall|id: Seq<char>| #[trigger]
                    later.limited.contains(id) <==> before.limited.contains(id) || (itself && id
                        == account_id@)
                &&& forall|id: Seq<char>| #[trigger]
                    later.rate_limited.contains(id) <==> before.rate_limited.contains(id) || (
                    failure.scope == PoolFailureScope::AccountModel && id == account_id@)
                &&& later.pool_size == before.pool_size
                &&& yields ==> later.last_failure == before.last_failure
                &&& !yields ==> (later.last_failure matches Some(last) && {
                    &&& last.status == failure.status
                    &&& last.scope == failure.scope
                    &&& last.disposition == failure.disposition
                    &&& last.sanitized_error == failure.sanitized_error@
                    &&& failure.retry_after matches Some(value) ==> last.retry_after == Some(value@)
                    &&& failure.retry_after is None ==> last.retry_after is None
                })
            },
{
}

/// A request ends with 429 where every account of a pool of at most ten ran into a limit, with 503
/// where every account attempted did but the pool has more, with the status of the last failure that
/// came with a response where some account did not, and with 502 where there is no such status. The
/// `Retry-After` is that of the failure that counts.
pub proof fn law_terminal_reply(
    state: &PoolAttemptState,
    status: u16,
    exhausted: bool,
    retry_after: Option<&str>,
)
    requires
        call_ensures(PoolAttemptState::terminal_status, (state,), status),
        call_ensures(PoolAttemptState::whole_pool_exhausted, (state,), exhausted),
        call_ensures(PoolAttemptState::retry_after, (state,), retry_after),
    ensures
        ({
            let record = state@;
            let all_hit_limits = record.last_failure is Some && forall|id: Seq<char>| #[trigger]
                record.attempted.contains(id) ==> record.rate_limited.contains(id);
            let small = 0 < record.pool_size <= 10 && record.attempted.len() >= record.pool_size;
            &&& all_hit_limits && small ==> status == 429
            &&& all_hit_limits && !small ==> status == 503
            &&& !all_hit_limits ==> match record.last_failure {
                Some(last) => status == if last.scope != PoolFailureScope::Transport && last.status
                    != 0 {
                    last.status
                } else {
                    502
                },
                None => status == 502,
            }
            &&& exhausted <==> small && forall|id: Seq<char>| #[trigger]
                record.attempted.contains(id) ==> record.limited.contains(id)
            &&& match record.last_failure {
                Some(last) => match last.retry_after {
                    Some(value) => retry_after matches Some(told) && told@ == value,
                    None => retry_after is None,
                },
                None => retry_after is None,
            }
        }),
{
    let record = state@;
    if forall|id: Seq<char>| #[trigger]
        record.attempted.contains(id) ==> record.rate_limited.contains(id) {
        assert(record.rate_limited =~= record.attempted);
        assert(record.limited =~= record.attempted);
    }
    if forall|id: Seq<char>| #[trigger]
        record.attempted.contains(id) ==> record.limited.contains(id) {
        assert(record.limited =~= record.attempted);
    }
}

/// A record tells the accounts attempted, the failure that counts, and how many accounts failed for a
/// reason of their own.
pub proof fn law_record_tells_what_it_holds(
    state: &PoolAttemptState,
    ids: &AccountSet,
    last: Option<&PoolFailure>,
    count: usize,
)
    requires
        call_ensures(PoolAttemptState::attempted_account_ids, (state,), ids),
        call_ensures(PoolAttemptState::last_failure, (state,), last),
        call_ensures(PoolAttemptState::account_limit_failure_count, (state,), count),
    ensures
        forall|id: Seq<char>| #[trigger] ids@.contains(id) <==> state@.attempted.contains(id),
        last is Some <==> exists|id: Seq<char>| #[trigger] state@.attempted.contains(id),
        last matches Some(failure) ==> state@.last_failure matches Some(kept) && kept.status
            == failure.status && kept.scope == failure.scope && kept.sanitized_error
            == failure.sanitized_error@,
        count == state@.limited.len(),
        count <= state@.attempted.len(),
{
    vstd::set_lib::lemma_len_subset(state@.limited, state@.attempted);
    if state@.attempted != Set::<Seq<char>>::empty() {
        if forall|id: Seq<char>| !(#[trigger] state@.attempted.contains(id)) {
            assert(state@.attempted =~= Set::<Seq<char>>::empty());
        }
    }
}

} // verus!

//! What holds of a record of failures, from the first failure to the last.

use crate::pool_retry::{
    classified, failure_scope, gemini_action, is_account_scope, law_recording_keeps_form,
    openai_action, sanitized, FailureView, GeminiRetryAction, OpenAiRetryAction, PoolFailureScope,
    PoolView, RetryDisposition, MAX_ACCOUNT_ATTEMPTS,
};
use crate::text::{lower_char, lowered};
use vstd::prelude::*;

verus! {

/// The record of these failures, each with its account, one after the other.
pub open spec fn record_of(pool_size: nat, failures: Seq<(Seq<char>, FailureView)>) -> PoolView
    decreases failures.len(),
{
    if failures.len() == 0 {
        PoolView::start(pool_size)
    } else {
        record_of(pool_size, failures.drop_last()).recorded(failures.last().0, failures.last().1)
    }
}

/// One of the failures is of this account.
pub open spec fn has_failed(failures: Seq<(Seq<char>, FailureView)>, id: Seq<char>) -> bool {
    exists|i: int| 0 <= i < failures.len() && (#[trigger] failures[i]).0 == id
}

/// One of the failures is of this account and for a reason of its own.
pub open spec fn has_failed_itself(failures: Seq<(Seq<char>, FailureView)>, id: Seq<char>) -> bool {
    exists|i: int|
        0 <= i < failures.len() && (#[trigger] failures[i]).0 == id && is_account_scope(
            failures[i].1.scope,
        )
}

/// One of the failures is of this account and a rate or quota limit.
pub open spec fn has_hit_limit(failures: Seq<(Seq<char>, FailureView)>, id: Seq<char>) -> bool {
    exists|i: int|
        0 <= i < failures.len() && (#[trigger] failures[i]).0 == id && failures[i].1.scope
            == PoolFailureScope::AccountModel
}

/// The failure at `i` is the last one that came with an HTTP response.
pub open spec fn is_last_http(failures: Seq<(Seq<char>, FailureView)>, i: int) -> bool {
    &&& 0 <= i < failures.len()
    &&& failures[i].1.scope != PoolFailureScope::Transport
    &&& forall|j: int|
        i < j < failures.len() ==> (#[trigger] failures[j]).1.scope == PoolFailureScope::Transport
}

/// None of the failures came with an HTTP response.
pub open spec fn all_transport(failures: Seq<(Seq<char>, FailureView)>) -> bool {
    forall|j: int|
        0 <= j < failures.len() ==> (#[trigger] failures[j]).1.scope == PoolFailureScope::Transport
}

/// A record knows exactly which accounts failed, which of them for a reason of their own, and which
/// of those ran into a rate or quota limit.
pub proof fn law_record_tells_who_failed(
    pool_size: nat,
    failures: Seq<(Seq<char>, FailureView)>,
)
    ensures
        record_of(pool_size, failures).well_formed(),
        record_of(pool_size, failures).pool_size == pool_size,
        forall|id: Seq<char>| #[trigger]
            record_of(pool_size, failures).attempted.contains(id) <==> has_failed(failures, id),
        forall|id: Seq<char>| #[trigger]
            record_of(pool_size, failures).limited.contains(id) <==> has_failed_itself(
                failures,
                id,
            ),
        forall|id: Seq<char>| #[trigger]
            record_of(pool_size, failures).rate_limited.contains(id) <==> has_hit_limit(
                failures,
                id,
            ),
    decreases failures.len(),
{
    if failures.len() > 0 {
        let front = failures.drop_last();
        let last = failures.last();
        law_record_tells_who_failed(pool_size, front);
        law_recording_keeps_form(record_of(pool_size, front), last.0, last.1);
        assert(failures[failures.len() - 1] == last);
        assert forall|id: Seq<char>|
            has_failed(failures, id) == (has_failed(front, id) || last.0 == id) by {
            if has_failed(front, id) {
                let i = choose|i: int| 0 <= i < front.len() && (#[trigger] front[i]).0 == id;
                assert(failures[i].0 == id);
            }
            if has_failed(failures, id) {
                let i = choose|i: int| 0 <= i < failures.len() && (#[trigger] failures[i]).0 == id;
                if i < front.len() {
                    assert(front[i].0 == id);
                }
            }
        }
        assert forall|id: Seq<char>|
            has_failed_itself(failures, id) == (has_failed_itself(front, id) || (last.0 == id
                && is_account_scope(last.1.scope))) by {
            if has_failed_itself(front, id) {
                let i = choose|i: int|
                    0 <= i < front.len() && (#[trigger] front[i]).0 == id && is_account_scope(
                        front[i].1.scope,
                    );
                assert(failures[i] == front[i]);
            }
            if has_failed_itself(failures, id) {
                let i = choose|i: int|
                    0 <= i < failures.len() && (#[trigger] failures[i]).0 == id && is_account_scope(
                        failures[i].1.scope,
                    );
                if i < front.len() {
                    assert(front[i] == failures[i]);
                }
            }
        }
        assert forall|id: Seq<char>|
            has_hit_limit(failures, id) == (has_hit_limit(front, id) || (last.0 == id
                && last.1.scope == PoolFailureScope::AccountModel)) by {
            if has_hit_limit(front, id) {
                let i = choose|i: int|
                    0 <= i < front.len() && (#[trigger] front[i]).0 == id && front[i].1.scope == PoolFailureScope::AccountModel;
                assert(failures[i] == front[i]);
            }
            if has_hit_limit(failures, id) {
                let i = choose|i: int|
                    0 <= i < failures.len() && (#[trigger] failures[i]).0 == id && failures[i].1.scope == PoolFailureScope::AccountModel;
                if i < front.len() {
                    assert(front[i] == failures[i]);
                }
            }
        }
    }
}

/// The failure that counts is the last one that came with an HTTP response; where none did, the
/// last one.
pub proof fn law_last_http_failure_counts(pool_size: nat, failures: Seq<(Seq<char>, FailureView)>)
    ensures
        forall|i: int| #[trigger]
            is_last_http(failures, i) ==> record_of(pool_size, failures).last_failure == Some(
                failures[i].1,
            ),
        all_transport(failures) && failures.len() > 0 ==> record_of(
            pool_size,
            failures,
        ).last_failure == Some(failures.last().1),
        failures.len() == 0 ==> record_of(pool_size, failures).last_failure is None,
    decreases failures.len(),
{
    if failures.len() > 0 {
        let front = failures.drop_last();
        law_last_http_failure_counts(pool_size, front);
        assert forall|i: int| #[trigger] is_last_http(failures, i) implies record_of(
            pool_size,
            failures,
        ).last_failure == Some(failures[i].1) by {
            if i < front.len() {
                assert(is_last_http(front, i)) by {
                    assert forall|j: int| i < j < front.len() implies (
                    #[trigger] front[j]).1.scope == PoolFailureScope::Transport by {
                        assert(front[j] == failures[j]);
                    }
                }
                assert(failures[failures.len() - 1].1.scope == PoolFailureScope::Transport);
            }
        }
        if all_transport(failures) {
            assert forall|j: int| 0 <= j < front.len() implies (#[trigger] front[j]).1.scope
                == PoolFailureScope::Transport by {
                assert(front[j] == failures[j]);
            }
            assert(failures[failures.len() - 1].1.scope == PoolFailureScope::Transport);
        }
    }
}

/// A pool is exhausted only where every account that failed did so for a reason of its own, and
/// there are as many of them as accounts in the pool; one that is larger than a request can go
/// through never is.
pub proof fn law_exhaustion_takes_every_account(
    pool_size: nat,
    failures: Seq<(Seq<char>, FailureView)>,
)
    ensures
        record_of(pool_size, failures).exhausted() <==> {
            &&& 0 < pool_size <= MAX_ACCOUNT_ATTEMPTS
            &&& record_of(pool_size, failures).attempted.len() >= pool_size
            &&& forall|id: Seq<char>|
                has_failed(failures, id) ==> #[trigger] has_failed_itself(failures, id)
        },
        pool_size > MAX_ACCOUNT_ATTEMPTS ==> !record_of(pool_size, failures).exhausted(),
{
    law_record_tells_who_failed(pool_size, failures);
    let record = record_of(pool_size, failures);
    if record.all_limited() {
        assert forall|id: Seq<char>| has_failed(failures, id) implies #[trigger] has_failed_itself(
            failures,
            id,
        ) by {
            assert(record.attempted.contains(id));
            assert(record.limited.contains(id));
        }
    }
    if forall|id: Seq<char>|
        has_failed(failures, id) ==> #[trigger] has_failed_itself(failures, id) {
        assert forall|id: Seq<char>| #[trigger]
            record.attempted.contains(id) implies record.limited.contains(id) by {
            assert(has_failed_itself(failures, id));
        }
        assert(record.limited =~= record.attempted);
    }
}

/// Where every account of a pool that a request can go through ran into a rate or quota limit, the
/// status is 429; where every account that failed did, and the pool is larger, it is 503.
pub proof fn law_limited_pool_is_429(pool_size: nat, failures: Seq<(Seq<char>, FailureView)>)
    requires
        failures.len() > 0,
        forall|id: Seq<char>| has_failed(failures, id) ==> #[trigger] has_hit_limit(failures, id),
    ensures
        record_of(pool_size, failures).terminal_status() == if 0 < pool_size
            <= MAX_ACCOUNT_ATTEMPTS && record_of(pool_size, failures).attempted.len() >= pool_size {
            429u16
        } else {
            503u16
        },
{
    law_record_tells_who_failed(pool_size, failures);
    let record = record_of(pool_size, failures);
    assert forall|id: Seq<char>| #[trigger]
        record.attempted.contains(id) implies record.rate_limited.contains(id) by {
        assert(has_hit_limit(failures, id));
    }
    assert(record.rate_limited =~= record.attempted);
    assert(record.limited =~= record.attempted);
    assert(has_failed(failures, failures[0].0));
    assert(record.attempted.contains(failures[0].0));
}

/// Failures that all came without an HTTP response end in 502.
pub proof fn law_transport_only_is_502(pool_size: nat, failures: Seq<(Seq<char>, FailureView)>)
    requires
        all_transport(failures),
    ensures
        record_of(pool_size, failures).terminal_status() == 502,
{
    law_last_http_failure_counts(pool_size, failures);
    law_record_tells_who_failed(pool_size, failures);
    let record = record_of(pool_size, failures);
    if failures.len() > 0 {
        let id = failures[0].0;
        assert(has_failed(failures, id));
        assert(record.attempted.contains(id));
        assert(!has_hit_limit(failures, id));
        assert(!record.rate_limited.contains(id));
        assert(failures[failures.len() - 1].1.scope == PoolFailureScope::Transport);
    }
}

/// A request ends with 429 only where every account of the pool ran into a rate or quota limit, or
/// the last HTTP failure was a 429 itself.
pub proof fn law_429_has_a_reason(pool_size: nat, failures: Seq<(Seq<char>, FailureView)>)
    requires
        record_of(pool_size, failures).terminal_status() == 429,
    ensures
        ({
            &&& record_of(pool_size, failures).attempted.len() >= pool_size
            &&& 0 < pool_size <= MAX_ACCOUNT_ATTEMPTS
            &&& forall|id: Seq<char>|
                has_failed(failures, id) ==> #[trigger] has_hit_limit(failures, id)
        }) || exists|i: int| #[trigger]
            is_last_http(failures, i) && failures[i].1.status == 429,
{
    let record = record_of(pool_size, failures);
    law_record_tells_who_failed(pool_size, failures);
    if record.exhausted() && record.all_rate_limited() {
        assert forall|id: Seq<char>| has_failed(failures, id) implies #[trigger] has_hit_limit(
            failures,
            id,
        ) by {
            assert(record.attempted.contains(id));
            assert(record.rate_limited.contains(id));
        }
    } else {
        lemma_http_failure_is_there(pool_size, failures);
        law_last_http_failure_counts(pool_size, failures);
    }
}

/// Where the failure that counts came with an HTTP response, it is the last such one.
proof fn lemma_http_failure_is_there(pool_size: nat, failures: Seq<(Seq<char>, FailureView)>)
    requires
        record_of(pool_size, failures).has_http_failure(),
    ensures
        exists|i: int| is_last_http(failures, i),
    decreases failures.len(),
{
    if failures.len() > 0 {
        let front = failures.drop_last();
        let end = failures.len() - 1;
        if failures[end].1.scope != PoolFailureScope::Transport {
            assert(is_last_http(failures, end));
        } else {
            lemma_http_failure_is_there(pool_size, front);
            let i = choose|i: int| is_last_http(front, i);
            assert forall|j: int| i < j < failures.len() implies (#[trigger] failures[j]).1.scope
                == PoolFailureScope::Transport by {
                if j < end {
                    assert(front[j] == failures[j]);
                }
            }
            assert(failures[i] == front[i]);
            assert(is_last_http(failures, i));
        }
    }
}

/// Where some account failed without a rate or quota limit, be it for want of authorization, the
/// status and the `Retry-After` of the last HTTP failure are kept.
pub proof fn law_last_http_failure_is_kept(
    pool_size: nat,
    failures: Seq<(Seq<char>, FailureView)>,
    i: int,
    id: Seq<char>,
)
    requires
        is_last_http(failures, i),
        failures[i].1.status != 0,
        has_failed(failures, id),
        !has_hit_limit(failures, id),
    ensures
        record_of(pool_size, failures).terminal_status() == failures[i].1.status,
        record_of(pool_size, failures).retry_after() == failures[i].1.retry_after,
{
    law_last_http_failure_counts(pool_size, failures);
    law_record_tells_who_failed(pool_size, failures);
    assert(record_of(pool_size, failures).attempted.contains(id));
    assert(!record_of(pool_size, failures).rate_limited.contains(id));
}

/// A provider without capacity as the last HTTP failure ends in 503, unless every account of the
/// pool also ran into a limit.
pub proof fn law_provider_capacity_is_503(
    pool_size: nat,
    failures: Seq<(Seq<char>, FailureView)>,
    i: int,
)
    requires
        is_last_http(failures, i),
        failures[i].1.scope == PoolFailureScope::ProviderModel,
        failures[i].1.status == 503,
        !(record_of(pool_size, failures).exhausted() && record_of(
            pool_size,
            failures,
        ).all_rate_limited()),
    ensures
        record_of(pool_size, failures).terminal_status() == 503,
{
    law_last_http_failure_counts(pool_size, failures);
}

/// An account that fails again is counted once.
pub proof fn law_account_is_counted_once(
    record: PoolView,
    id: Seq<char>,
    failure: FailureView,
    again: FailureView,
)
    requires
        record.well_formed(),
    ensures
        record.recorded(id, failure).recorded(id, again).attempted == record.recorded(
            id,
            failure,
        ).attempted,
        record.recorded(id, failure).attempted.len() <= record.attempted.len() + 1,
{
    assert(record.recorded(id, failure).recorded(id, again).attempted =~= record.recorded(
        id,
        failure,
    ).attempted);
}

/// The Gemini handler and the OpenAI-compatible ones go on in the same way after every failure.
pub proof fn law_handlers_agree(scope: PoolFailureScope, remaining: nat)
    ensures
        gemini_action(scope, remaining) == GeminiRetryAction::CooldownAndRotate <==> openai_action(
            scope,
            remaining,
        ) == OpenAiRetryAction::CooldownAndRotate,
        gemini_action(scope, remaining) == GeminiRetryAction::ReturnProviderStatus
            <==> openai_action(scope, remaining) == OpenAiRetryAction::ReturnProviderStatus,
        gemini_action(scope, remaining) == GeminiRetryAction::ReturnFailure <==> openai_action(
            scope,
            remaining,
        ) == OpenAiRetryAction::ReturnFailure,
{
}

/// A text in small letters stays as it is.
proof fn lemma_lowered_twice(text: Seq<char>)
    ensures
        lowered(lowered(text)) == lowered(text),
{
    assert forall|i: int| 0 <= i < text.len() implies lower_char(
        #[trigger] lowered(text)[i],
    ) == lowered(text)[i] by {
        let c = text[i];
        if 'A' <= c && c <= 'Z' {
            assert('a' <= lower_char(c) && lower_char(c) <= 'z');
        }
    }
    assert(lowered(lowered(text)) =~= lowered(text));
}

/// An HTTP failure keeps its status and its `Retry-After`, is never taken for a transport failure,
/// asks for another account exactly if it is one of the account, and is classified alike in
/// capital and in small letters.
pub proof fn law_classification(status: u16, text: Seq<char>, retry_after: Option<Seq<char>>)
    ensures
        classified(status, text, retry_after).status == status,
        classified(status, text, retry_after).retry_after == retry_after,
        classified(status, text, retry_after).sanitized_error == sanitized(text),
        classified(status, text, retry_after).scope != PoolFailureScope::Transport,
        classified(status, text, retry_after).disposition == RetryDisposition::RotateAccount
            <==> is_account_scope(classified(status, text, retry_after).scope),
        failure_scope(status, lowered(text)) == failure_scope(status, text),
{
    lemma_lowered_twice(text);
}

} // verus!

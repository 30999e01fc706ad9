//! Retry strategies by upstream status and body, and when to go on to another account.

use crate::accounts::AccountSet;
use crate::json::{fields_tree, items_tree, json_parse, parse_json, Json, JsonTree};
use crate::text;
use crate::text::{lowered, occurs};
use std::time::Duration;
use vstd::arithmetic::power2::pow2;
use vstd::prelude::*;
use vstd::string::*;

verus! {

/// The nanoseconds that a [`Duration`] spans (`Duration::as_nanos`).
pub uninterp spec fn duration_nanos(duration: Duration) -> nat;

/// The nanoseconds in `ms` milliseconds.
pub open spec fn millis(ms: nat) -> nat {
    ms * 1_000_000
}

/// `Duration::from_millis` makes a duration of exactly that many milliseconds.
pub assume_specification[ Duration::from_millis ](ms: u64) -> (duration: Duration)
    ensures
        duration_nanos(duration) == millis(ms as nat),
;

/// How to wait before the next attempt.
#[derive(Debug)]
pub enum RetryStrategy {
    /// Do not try again.
    NoRetry,
    /// The same wait after every attempt.
    FixedDelay(Duration),
    /// `base_ms * (attempt + 1)`
    LinearBackoff { base_ms: u64 },
    /// `base_ms * 2^attempt`, at most `max_ms`
    ExponentialBackoff { base_ms: u64, max_ms: u64 },
    /// A short wait, then the same account again.
    GraceRetry(Duration),
}

impl Clone for RetryStrategy {
    fn clone(&self) -> (copy: Self)
        ensures
            copy == *self,
    {
        match self {
            RetryStrategy::NoRetry => RetryStrategy::NoRetry,
            RetryStrategy::FixedDelay(delay) => RetryStrategy::FixedDelay(*delay),
            RetryStrategy::LinearBackoff { base_ms } => RetryStrategy::LinearBackoff {
                base_ms: *base_ms,
            },
            RetryStrategy::ExponentialBackoff { base_ms, max_ms } => {
                RetryStrategy::ExponentialBackoff { base_ms: *base_ms, max_ms: *max_ms }
            },
            RetryStrategy::GraceRetry(delay) => RetryStrategy::GraceRetry(*delay),
        }
    }
}

/// What a [`RetryStrategy`] says, waits in nanoseconds.
pub enum StrategyView {
    NoRetry,
    FixedDelay(nat),
    LinearBackoff { base_ms: u64 },
    ExponentialBackoff { base_ms: u64, max_ms: u64 },
    GraceRetry(nat),
}

impl View for RetryStrategy {
    type V = StrategyView;

    open spec fn view(&self) -> StrategyView {
        match *self {
            RetryStrategy::NoRetry => StrategyView::NoRetry,
            RetryStrategy::FixedDelay(delay) => StrategyView::FixedDelay(duration_nanos(delay)),
            RetryStrategy::LinearBackoff { base_ms } => StrategyView::LinearBackoff { base_ms },
            RetryStrategy::ExponentialBackoff { base_ms, max_ms } => {
                StrategyView::ExponentialBackoff { base_ms, max_ms }
            },
            RetryStrategy::GraceRetry(delay) => StrategyView::GraceRetry(duration_nanos(delay)),
        }
    }
}

/// A text in small letters that speaks of a model without capacity.
pub open spec fn mentions_capacity(text: Seq<char>) -> bool {
    ||| occurs(text, "model_capacity_exhausted"@)
    ||| occurs(text, "image_capacity_exhausted"@)
    ||| occurs(text, "no capacity available for model"@)
}

/// Some string in the document speaks of a model without capacity.
pub open spec fn tree_mentions_capacity(tree: JsonTree) -> bool
    decreases tree,
{
    match tree {
        JsonTree::Text(s) => mentions_capacity(lowered(s)),
        JsonTree::Array(items) => exists|i: int|
            0 <= i < items.len() && tree_mentions_capacity(#[trigger] items[i]),
        JsonTree::Object(fields) => exists|k: Seq<char>|
            fields.contains_key(k) && tree_mentions_capacity(#[trigger] fields[k]),
        _ => false,
    }
}

/// `s` from the first `c` on; empty where there is none.
pub open spec fn from_first(s: Seq<char>, c: char) -> Seq<char>
    decreases s.len(),
{
    if s.len() > 0 && s[0] != c {
        from_first(s.skip(1), c)
    } else {
        s
    }
}

/// Where a JSON document can stand in an error: from the first brace on, or all of it.
pub open spec fn json_part(s: Seq<char>) -> Seq<char> {
    if s.contains('{') {
        from_first(s, '{')
    } else {
        s
    }
}

/// An error that speaks of a model without capacity, as a document or as a text, where
/// `document` is what its JSON part says.
pub open spec fn capacity_error_with(document: Option<JsonTree>, text: Seq<char>) -> bool {
    ||| document matches Some(tree) && tree_mentions_capacity(tree)
    ||| mentions_capacity(lowered(text))
}

/// An error that speaks of a model without capacity.
pub open spec fn capacity_error(text: Seq<char>) -> bool {
    capacity_error_with(json_parse(json_part(text)), text)
}

fn text_mentions_capacity(text: &str) -> (found: bool)
    ensures
        found == mentions_capacity(lowered(text@)),
{
    let normalized = text::to_ascii_lowercase(text);
    text::contains(normalized.as_str(), "model_capacity_exhausted") || text::contains(
        normalized.as_str(),
        "image_capacity_exhausted",
    ) || text::contains(normalized.as_str(), "no capacity available for model")
}

/// Whether some string in the document speaks of a model without capacity.
pub fn value_contains_model_capacity_error(value: &Json) -> (found: bool)
    ensures
        found == tree_mentions_capacity(value@),
    decreases value,
{
    match value {
        Json::Text(text) => text_mentions_capacity(text.as_str()),
        Json::Array(items) => {
            let mut i: usize = 0;
            while i < items.len()
                invariant
                    *value == Json::Array(*items),
                    i <= items@.len(),
                    forall|j: int| 0 <= j < i ==> !tree_mentions_capacity(#[trigger] items@[j]@),
                decreases items@.len() - i,
            {
                assert(decreases_to!(*value => value->Array_0));
                assert(decreases_to!(value->Array_0 => value->Array_0@));
                assert(decreases_to!(items@ => items@[i as int]));
                if value_contains_model_capacity_error(&items[i]) {
                    assert(value@->Array_0[i as int] == items@[i as int]@);
                    return true;
                }
                i = i + 1;
            }
            assert forall|j: int|
                0 <= j < value@->Array_0.len() implies !tree_mentions_capacity(
                #[trigger] value@->Array_0[j],
            ) by {
                assert(!tree_mentions_capacity(items@[j]@));
            }
            false
        },
        Json::Object(fields) => {
            let mut i: usize = 0;
            while i < fields.len()
                invariant
                    *value == Json::Object(*fields),
                    i <= fields@.len(),
                    forall|j: int|
                        0 <= j < i && Json::counts(fields@, j) ==> !tree_mentions_capacity(
                            #[trigger] fields@[j].1@,
                        ),
                decreases fields@.len() - i,
            {
                assert(decreases_to!(*value => value->Object_0));
                assert(decreases_to!(value->Object_0 => value->Object_0@));
                assert(decreases_to!(fields@ => fields@[i as int]));
                if Json::field_counts(fields, i) && value_contains_model_capacity_error(
                    &fields[i].1,
                ) {
                    proof {
                        Json::lemma_counts(fields@);
                    }
                    assert(value@->Object_0[fields@[i as int].0@] == fields@[i as int].1@);
                    return true;
                }
                i = i + 1;
            }
            proof {
                Json::lemma_counts(fields@);
            }
            assert(value@->Object_0 == fields_tree(fields@));
            assert forall|k: Seq<char>|
                value@->Object_0.contains_key(k) implies !tree_mentions_capacity(
                #[trigger] value@->Object_0[k],
            ) by {
                let j = choose|j: int|
                    0 <= j < fields@.len() && Json::counts(fields@, j) && (
                    #[trigger] fields@[j]).0@ == k;
                assert(!tree_mentions_capacity(fields@[j].1@));
            }
            false
        },
        _ => false,
    }
}

/// Position `i` holds the first `c` of `s`, so `s` from its first `c` on begins there.
proof fn lemma_from_first(s: Seq<char>, c: char, i: int)
    requires
        0 <= i < s.len(),
        s[i] == c,
        !s.take(i).contains(c),
    ensures
        from_first(s, c) == s.skip(i),
    decreases i,
{
    if i > 0 {
        assert(s.take(i)[0] == s[0]);
        assert(s[0] != c);
        let rest = s.skip(1);
        assert forall|j: int| 0 <= j < i - 1 implies #[trigger] rest.take(i - 1)[j] != c by {
            assert(s.take(i)[j + 1] == rest[j]);
            assert(s.take(i).contains(s.take(i)[j + 1]));
        }
        lemma_from_first(rest, c, i - 1);
        assert(rest.skip(i - 1) =~= s.skip(i));
    } else {
        assert(s.skip(0) =~= s);
    }
}

/// Whether an error speaks of a model without capacity, where `document` is what its JSON part
/// says.
pub fn is_model_capacity_error_with(document: Option<&Json>, error_text: &str) -> (found: bool)
    ensures
        found == capacity_error_with(
            match document {
                Some(json) => Some(json@),
                None => None,
            },
            error_text@,
        ),
{
    if let Some(json) = document {
        if value_contains_model_capacity_error(json) {
            return true;
        }
    }
    text_mentions_capacity(error_text)
}

/// Whether an error speaks of a model without capacity.
pub fn is_model_capacity_error(error_text: &str) -> (found: bool)
    ensures
        found == capacity_error(error_text@),
{
    let json_text = match text::find(error_text, '{') {
        Some(i) => {
            proof {
                lemma_from_first(error_text@, '{', i as int);
                assert(error_text@.contains(error_text@[i as int]));
                assert(error_text@.skip(i as int) =~= error_text@.subrange(
                    i as int,
                    error_text@.len() as int,
                ));
            }
            error_text.substring_char(i, error_text.unicode_len())
        },
        None => error_text,
    };
    match parse_json(json_text) {
        Some(json) => is_model_capacity_error_with(Some(&json), error_text),
        None => is_model_capacity_error_with(None, error_text),
    }
}

/// A text in small letters that speaks of a location that is not served.
pub open spec fn mentions_unsupported_location(text: Seq<char>) -> bool {
    occurs(text, "user location is not supported"@)
}

/// Whether an error speaks of a location that is not served.
pub fn is_unsupported_location_error(error_text: &str) -> (found: bool)
    ensures
        found == mentions_unsupported_location(lowered(error_text@)),
{
    let normalized = text::to_ascii_lowercase(error_text);
    text::contains(normalized.as_str(), "user location is not supported")
}

/// A text that speaks of a thinking signature that was not accepted.
pub open spec fn mentions_thinking_signature(text: Seq<char>) -> bool {
    ||| occurs(text, "Invalid `signature`"@)
    ||| occurs(text, "thinking.signature"@)
    ||| occurs(text, "thinking.thinking"@)
    ||| occurs(text, "Corrupted thought signature"@)
}

fn is_thinking_signature_error(error_text: &str) -> (found: bool)
    ensures
        found == mentions_thinking_signature(error_text@),
{
    text::contains(error_text, "Invalid `signature`") || text::contains(
        error_text,
        "thinking.signature",
    ) || text::contains(error_text, "thinking.thinking") || text::contains(
        error_text,
        "Corrupted thought signature",
    )
}

/// The longest delay, in milliseconds, that is waited out on the same account.
pub const MAX_GRACE_DELAY_MS: u64 = 2000;

/// The longest delay, in milliseconds, that is waited before another account is tried.
pub const MAX_FIXED_DELAY_MS: u64 = 30000;

/// Whether a delay of `delay_ms` milliseconds is short enough to be waited out on the same
/// account.
pub fn should_grace_retry(delay_ms: u64) -> (short: bool)
    ensures
        short == (delay_ms <= MAX_GRACE_DELAY_MS),
{
    delay_ms <= MAX_GRACE_DELAY_MS
}

/// How to go on after a rate limit for which the provider asks for `delay_ms` milliseconds.
pub open spec fn rate_limit_strategy(delay_ms: Option<u64>) -> StrategyView {
    match delay_ms {
        Some(ms) => if ms <= MAX_GRACE_DELAY_MS {
            StrategyView::GraceRetry(millis((ms + 100) as nat))
        } else if ms + 200 <= MAX_FIXED_DELAY_MS {
            StrategyView::FixedDelay(millis((ms + 200) as nat))
        } else {
            StrategyView::FixedDelay(millis(MAX_FIXED_DELAY_MS as nat))
        },
        None => StrategyView::LinearBackoff { base_ms: 5000 },
    }
}

/// How to go on after a failure with this status and body, where `delay_ms` is the delay that
/// the provider asks for in the body.
pub open spec fn retry_strategy(
    status: u16,
    text: Seq<char>,
    retried_without_thinking: bool,
    delay_ms: Option<u64>,
) -> StrategyView {
    if status == 400 && (mentions_unsupported_location(lowered(text)) || (!retried_without_thinking
        && mentions_thinking_signature(text))) {
        StrategyView::FixedDelay(millis(200))
    } else if status == 429 {
        rate_limit_strategy(delay_ms)
    } else if status == 503 && capacity_error(text) {
        StrategyView::FixedDelay(millis(500))
    } else if status == 503 || status == 529 {
        StrategyView::ExponentialBackoff { base_ms: 10000, max_ms: 60000 }
    } else if status == 500 {
        StrategyView::LinearBackoff { base_ms: 3000 }
    } else if status == 401 || status == 403 {
        StrategyView::FixedDelay(millis(200))
    } else if status == 404 {
        StrategyView::FixedDelay(millis(300))
    } else {
        StrategyView::NoRetry
    }
}

/// How to go on after a failure with this status and body. `retry_delay_ms` is the delay, in
/// milliseconds, that the provider asks for in the body.
pub fn determine_retry_strategy(
    status_code: u16,
    error_text: &str,
    retried_without_thinking: bool,
    retry_delay_ms: Option<u64>,
) -> (strategy: RetryStrategy)
    ensures
        strategy@ == retry_strategy(
            status_code,
            error_text@,
            retried_without_thinking,
            retry_delay_ms,
        ),
{
    match status_code {
        400 => {
            if is_unsupported_location_error(error_text) || (!retried_without_thinking
                && is_thinking_signature_error(error_text)) {
                RetryStrategy::FixedDelay(Duration::from_millis(200))
            } else {
                RetryStrategy::NoRetry
            }
        },
        429 => match retry_delay_ms {
            Some(delay_ms) => {
                if should_grace_retry(delay_ms) {
                    RetryStrategy::GraceRetry(Duration::from_millis(delay_ms.saturating_add(100)))
                } else {
                    let padded: u64 = delay_ms.saturating_add(200);
                    let actual: u64 = if padded < MAX_FIXED_DELAY_MS {
                        padded
                    } else {
                        MAX_FIXED_DELAY_MS
                    };
                    RetryStrategy::FixedDelay(Duration::from_millis(actual))
                }
            },
            None => RetryStrategy::LinearBackoff { base_ms: 5000 },
        },
        503 => {
            if is_model_capacity_error(error_text) {
                RetryStrategy::FixedDelay(Duration::from_millis(500))
            } else {
                RetryStrategy::ExponentialBackoff { base_ms: 10000, max_ms: 60000 }
            }
        },
        529 => RetryStrategy::ExponentialBackoff { base_ms: 10000, max_ms: 60000 },
        500 => RetryStrategy::LinearBackoff { base_ms: 3000 },
        401 | 403 => RetryStrategy::FixedDelay(Duration::from_millis(200)),
        404 => RetryStrategy::FixedDelay(Duration::from_millis(300)),
        _ => RetryStrategy::NoRetry,
    }
}

/// Whether another attempt is permitted after attempt number `attempt`, counted from zero.
pub fn has_retry_attempt_remaining(attempt: usize, max_attempts: usize) -> (remains: bool)
    ensures
        remains == (attempt + 1 < max_attempts),
{
    attempt.saturating_add(1) < max_attempts
}

/// `base * 2^times`, at most `cap`.
pub open spec fn capped_double(base: nat, times: nat, cap: nat) -> nat {
    if base * pow2(times) < cap {
        base * pow2(times)
    } else {
        cap
    }
}

fn capped_doubling(base: u64, times: usize, cap: u64) -> (out: u64)
    ensures
        out == capped_double(base as nat, times as nat, cap as nat),
{
    let mut out: u64 = base;
    let mut done: usize = 0;
    proof {
        vstd::arithmetic::power2::lemma2_to64();
        assert(base * pow2(0) == base) by (nonlinear_arith)
            requires
                pow2(0) == 1,
        ;
    }
    if base == 0 {
        assert(base * pow2(times as nat) == 0) by (nonlinear_arith)
            requires
                base == 0,
        ;
        return 0;
    }
    while done < times
        invariant
            done <= times,
            base > 0,
            out == base * pow2(done as nat),
        decreases times - done,
    {
        if out >= cap || out >= cap - out {
            proof {
                lemma_doubling_grows(base as nat, (done + 1) as nat, times as nat);
                lemma_double_once(base as nat, done as nat);
            }
            return cap;
        }
        proof {
            lemma_double_once(base as nat, done as nat);
        }
        out = out + out;
        done = done + 1;
    }
    if out < cap {
        out
    } else {
        cap
    }
}

proof fn lemma_double_once(base: nat, times: nat)
    ensures
        base * pow2(times + 1) == base * pow2(times) + base * pow2(times),
{
    vstd::arithmetic::power2::lemma_pow2_unfold(times + 1);
    assert(base * (2 * pow2(times)) == base * pow2(times) + base * pow2(times)) by (nonlinear_arith);
}

proof fn lemma_doubling_grows(base: nat, fewer: nat, more: nat)
    requires
        fewer <= more,
    ensures
        base * pow2(fewer) <= base * pow2(more),
    decreases more,
{
    if fewer < more {
        lemma_doubling_grows(base, fewer, (more - 1) as nat);
        lemma_double_once(base, (more - 1) as nat);
    }
}

/// The wait, in nanoseconds, before the attempt that follows attempt number `attempt`, counted
/// from zero; `None` where there is none.
pub open spec fn retry_wait(strategy: StrategyView, attempt: nat, max_attempts: nat) -> Option<
    nat,
> {
    if attempt + 1 >= max_attempts {
        None
    } else {
        match strategy {
            StrategyView::NoRetry => None,
            StrategyView::FixedDelay(nanos) => Some(nanos),
            StrategyView::LinearBackoff { base_ms } => Some(millis(base_ms as nat * (attempt + 1))),
            StrategyView::ExponentialBackoff { base_ms, max_ms } => Some(
                millis(capped_double(base_ms as nat, attempt, max_ms as nat)),
            ),
            StrategyView::GraceRetry(nanos) => Some(nanos),
        }
    }
}

/// The wait before the attempt that follows attempt number `attempt`, counted from zero; `None`
/// where there is none, so that nothing is waited for after the last attempt.
pub fn retry_delay(strategy: &RetryStrategy, attempt: usize, max_attempts: usize) -> (delay: Option<
    Duration,
>)
    requires
        attempt + 1 < max_attempts ==> (strategy matches RetryStrategy::LinearBackoff { base_ms }
            ==> base_ms * (attempt + 1) <= u64::MAX),
    ensures
        retry_wait(strategy@, attempt as nat, max_attempts as nat) == match delay {
            Some(duration) => Some(duration_nanos(duration)),
            None => None,
        },
{
    if !has_retry_attempt_remaining(attempt, max_attempts) {
        return None;
    }
    match strategy {
        RetryStrategy::NoRetry => None,
        RetryStrategy::FixedDelay(duration) => Some(*duration),
        RetryStrategy::LinearBackoff { base_ms } => Some(
            Duration::from_millis(*base_ms * (attempt as u64 + 1)),
        ),
        RetryStrategy::ExponentialBackoff { base_ms, max_ms } => Some(
            Duration::from_millis(capped_doubling(*base_ms, attempt, *max_ms)),
        ),
        RetryStrategy::GraceRetry(duration) => Some(*duration),
    }
}

/// A failure with this status is one that another account can be free of.
pub open spec fn is_account_status(status: u16) -> bool {
    status == 429 || status == 401 || status == 403 || status == 404 || status == 500
}

/// The strategy, if there is one, is to wait on the same account.
pub open spec fn keeps_account(strategy: Option<&RetryStrategy>) -> bool {
    strategy matches Some(RetryStrategy::GraceRetry(_))
}

/// Whether to go on to another account after a failure with this status.
pub fn should_rotate_account(status_code: u16, strategy: Option<&RetryStrategy>) -> (rotate: bool)
    ensures
        rotate == (is_account_status(status_code) && !keeps_account(strategy)),
{
    if let Some(RetryStrategy::GraceRetry(_)) = strategy {
        return false;
    }
    match status_code {
        429 | 401 | 403 | 404 | 500 => true,
        _ => false,
    }
}

/// A failure with this status and body calls for another account, whatever the strategy.
pub open spec fn forces_rotation(status: u16, text: Seq<char>) -> bool {
    ||| status == 400 && mentions_unsupported_location(lowered(text))
    ||| status == 503 && capacity_error(text)
}

/// Whether to go on to another account after a failure with this status and body.
pub fn should_rotate_account_for_error(
    status_code: u16,
    strategy: Option<&RetryStrategy>,
    error_text: &str,
) -> (rotate: bool)
    ensures
        rotate == (forces_rotation(status_code, error_text@) || (is_account_status(status_code)
            && !keeps_account(strategy))),
{
    if status_code == 400 && is_unsupported_location_error(error_text) {
        return true;
    }
    if status_code == 503 && is_model_capacity_error(error_text) {
        return true;
    }
    should_rotate_account(status_code, strategy)
}

/// The status that a request without a result ends with: 503 where the last failure was a model
/// without capacity, else 429.
pub fn exhausted_response_status(last_status: Option<u16>, last_error: &str) -> (status: u16)
    ensures
        status == if last_status == Some(503u16) && capacity_error(last_error@) {
            503u16
        } else {
            429u16
        },
{
    match last_status {
        Some(503) if is_model_capacity_error(last_error) => 503,
        _ => 429,
    }
}

/// Keeps an account that failed from being selected again for the same request; whether it is
/// left for another one.
pub fn record_account_for_rotation(
    should_rotate: bool,
    account_id: &str,
    attempted_account_ids: &mut AccountSet,
) -> (rotate: bool)
    ensures
        rotate == should_rotate,
        final(attempted_account_ids)@ == if should_rotate {
            old(attempted_account_ids)@.insert(account_id@)
        } else {
            old(attempted_account_ids)@
        },
{
    if should_rotate {
        attempted_account_ids.insert(account_id.to_owned());
    }
    should_rotate
}

/// Nothing is waited for after the last permitted attempt, whatever the strategy.
pub proof fn law_no_wait_after_last_attempt(
    strategy: StrategyView,
    attempt: nat,
    max_attempts: nat,
)
    ensures
        attempt + 1 >= max_attempts ==> retry_wait(strategy, attempt, max_attempts) is None,
        attempt + 1 < max_attempts ==> (retry_wait(strategy, attempt, max_attempts) is None
            <==> strategy is NoRetry),
{
}

/// A growing wait never shrinks from one attempt to the next, and the exponential one stays within
/// its limit.
pub proof fn law_backoff_grows(
    strategy: StrategyView,
    earlier: nat,
    later: nat,
    max_attempts: nat,
)
    requires
        earlier <= later,
        later + 1 < max_attempts,
        strategy !is NoRetry,
    ensures
        retry_wait(strategy, earlier, max_attempts)->0 <= retry_wait(
            strategy,
            later,
            max_attempts,
        )->0,
        strategy matches StrategyView::ExponentialBackoff { base_ms, max_ms } ==> retry_wait(
            strategy,
            later,
            max_attempts,
        )->0 <= millis(max_ms as nat),
{
    match strategy {
        StrategyView::LinearBackoff { base_ms } => {
            assert(base_ms as nat * (earlier + 1) <= base_ms as nat * (later + 1))
                by (nonlinear_arith)
                requires
                    earlier <= later,
            ;
        },
        StrategyView::ExponentialBackoff { base_ms, max_ms } => {
            lemma_doubling_grows(base_ms as nat, earlier, later);
        },
        _ => {},
    }
}

/// The waits that a failure leads to: at most thirty seconds where the wait is fixed, a little over
/// two on the same account, and growing from at most ten otherwise.
pub proof fn law_strategy_is_moderate(
    status: u16,
    text: Seq<char>,
    retried_without_thinking: bool,
    delay_ms: Option<u64>,
)
    ensures
        match retry_strategy(status, text, retried_without_thinking, delay_ms) {
            StrategyView::NoRetry => true,
            StrategyView::FixedDelay(nanos) => nanos <= millis(MAX_FIXED_DELAY_MS as nat),
            StrategyView::LinearBackoff { base_ms } => base_ms <= 5000,
            StrategyView::ExponentialBackoff { base_ms, max_ms } => base_ms == 10000 && max_ms
                == 60000,
            StrategyView::GraceRetry(nanos) => status == 429 && nanos <= millis(
                (MAX_GRACE_DELAY_MS + 100) as nat,
            ),
        },
{
}

} // verus!

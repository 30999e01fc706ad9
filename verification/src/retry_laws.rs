//! What the retry strategies, the waits and the rotation are for, said of their results.

use crate::accounts::AccountSet;
use crate::common::{
    capacity_error, capped_double, determine_retry_strategy, duration_nanos,
    exhausted_response_status, from_first, has_retry_attempt_remaining, is_model_capacity_error,
    is_model_capacity_error_with, is_unsupported_location_error, json_part, mentions_capacity,
    mentions_thinking_signature, mentions_unsupported_location, record_account_for_rotation,
    retry_delay, should_grace_retry, should_rotate_account, should_rotate_account_for_error,
    tree_mentions_capacity, value_contains_model_capacity_error, RetryStrategy,
};
use crate::json::{json_parse, Json, JsonTree};
use crate::text::{lowered, occurs};
use crate::text_laws::{law_occurrence_is_a_split, stands_in};
use std::time::Duration;
use vstd::arithmetic::power2::pow2;
use vstd::prelude::*;
use vstd::string::*;

verus! {

/// The duration lasts this many milliseconds.
pub open spec fn lasts(duration: Duration, ms: int) -> bool {
    duration_nanos(duration) == ms * 1_000_000
}

/// The wait is fixed and lasts this many milliseconds.
pub open spec fn waits_fixed(strategy: RetryStrategy, ms: int) -> bool {
    strategy matches RetryStrategy::FixedDelay(duration) && lasts(duration, ms)
}

/// Statuses of which the text does not matter: 401, 403 and 404 wait a fixed short time, 500 grows
/// from three seconds, 529 doubles from ten seconds to a minute, and none of them is given up.
pub proof fn law_strategy_by_status_alone(
    status: u16,
    text: &str,
    retried_without_thinking: bool,
    delay_ms: Option<u64>,
    strategy: RetryStrategy,
)
    requires
        call_ensures(
            determine_retry_strategy,
            (status, text, retried_without_thinking, delay_ms),
            strategy,
        ),
    ensures
        status == 401 ==> waits_fixed(strategy, 200),
        status == 403 ==> waits_fixed(strategy, 200),
        status == 404 ==> waits_fixed(strategy, 300),
        status == 500 ==> strategy == (RetryStrategy::LinearBackoff { base_ms: 3000 }),
        status == 529 ==> strategy == (RetryStrategy::ExponentialBackoff {
            base_ms: 10000,
            max_ms: 60000,
        }),
{
}

/// A rate limit waits as the provider asks, whatever the text: up to two seconds, and a tenth, on the
/// same account; else as long and a fifth of a second, thirty seconds at most; where it asks for
/// nothing, the wait grows from five seconds.
pub proof fn law_rate_limit_waits_as_asked(
    text: &str,
    retried_without_thinking: bool,
    delay_ms: Option<u64>,
    strategy: RetryStrategy,
)
    requires
        call_ensures(
            determine_retry_strategy,
            (429u16, text, retried_without_thinking, delay_ms),
            strategy,
        ),
    ensures
        match delay_ms {
            Some(ms) => if ms <= 2000 {
                strategy matches RetryStrategy::GraceRetry(wait) && lasts(wait, ms + 100)
            } else if ms <= 29800 {
                waits_fixed(strategy, ms + 200)
            } else {
                waits_fixed(strategy, 30000)
            },
            None => strategy == (RetryStrategy::LinearBackoff { base_ms: 5000 }),
        },
{
}

/// The strategy for these statuses does not depend on the text, nor on whether the request was tried
/// without thinking before.
pub proof fn law_text_does_not_matter(
    status: u16,
    text: &str,
    other_text: &str,
    retried: bool,
    other_retried: bool,
    delay_ms: Option<u64>,
    strategy: RetryStrategy,
    other: RetryStrategy,
)
    requires
        status == 401 || status == 403 || status == 404 || status == 429 || status == 500 || status
            == 529,
        call_ensures(determine_retry_strategy, (status, text, retried, delay_ms), strategy),
        call_ensures(determine_retry_strategy, (status, other_text, other_retried, delay_ms), other),
    ensures
        strategy@ == other@,
        !(strategy is NoRetry),
        !(other is NoRetry),
{
}

/// Words, in small letters, that tell of a model without capacity.
pub open spec fn is_capacity_word(word: Seq<char>) -> bool {
    ||| word == "model_capacity_exhausted"@
    ||| word == "image_capacity_exhausted"@
    ||| word == "no capacity available for model"@
}

/// A text in which such words stand, in whatever letters.
pub open spec fn tells_of_capacity(text: Seq<char>) -> bool {
    exists|word: Seq<char>| #[trigger] is_capacity_word(word) && stands_in(lowered(text), word)
}

proof fn lemma_capacity_words(text: Seq<char>)
    ensures
        tells_of_capacity(text) <==> mentions_capacity(lowered(text)),
{
    let low = lowered(text);
    assert forall|word: Seq<char>|
        #![trigger occurs(low, word)]
        #![trigger stands_in(low, word)]
        occurs(low, word) == stands_in(low, word) by {
        law_occurrence_is_a_split(low, word);
    }
    assert(is_capacity_word("model_capacity_exhausted"@));
    assert(is_capacity_word("image_capacity_exhausted"@));
    assert(is_capacity_word("no capacity available for model"@));
}

/// One step into a document: to an item of an array, or to a member of an object.
pub enum Step {
    Item(int),
    Member(Seq<char>),
}

/// What one step leads to.
pub open spec fn one_step(tree: JsonTree, step: Step) -> Option<JsonTree> {
    match (tree, step) {
        (JsonTree::Array(items), Step::Item(i)) => if 0 <= i < items.len() {
            Some(items[i])
        } else {
            None
        },
        (JsonTree::Object(fields), Step::Member(key)) => if fields.contains_key(key) {
            Some(fields[key])
        } else {
            None
        },
        _ => None,
    }
}

/// `path` leads from `tree` to the string `found`.
pub open spec fn leads_to(tree: JsonTree, path: Seq<Step>, found: Seq<char>) -> bool
    decreases path.len(),
{
    if path.len() == 0 {
        tree == JsonTree::Text(found)
    } else {
        match one_step(tree, path[0]) {
            Some(next) => leads_to(next, path.skip(1), found),
            None => false,
        }
    }
}

/// Somewhere in the document, however deep, stands a string that tells of a model without capacity.
pub open spec fn document_tells_of_capacity(tree: JsonTree) -> bool {
    exists|path: Seq<Step>, found: Seq<char>| #[trigger]
        leads_to(tree, path, found) && tells_of_capacity(found)
}

proof fn lemma_path_is_found(tree: JsonTree, path: Seq<Step>, found: Seq<char>)
    requires
        leads_to(tree, path, found),
        tells_of_capacity(found),
    ensures
        tree_mentions_capacity(tree),
    decreases path.len(),
{
    if path.len() == 0 {
        lemma_capacity_words(found);
    } else {
        let next = one_step(tree, path[0])->0;
        lemma_path_is_found(next, path.skip(1), found);
        match path[0] {
            Step::Item(i) => {
                assert(tree_mentions_capacity(tree->Array_0[i]));
            },
            Step::Member(key) => {
                assert(tree_mentions_capacity(tree->Object_0[key]));
            },
        }
    }
}

proof fn lemma_found_has_a_path(tree: JsonTree)
    requires
        tree_mentions_capacity(tree),
    ensures
        document_tells_of_capacity(tree),
    decreases tree,
{
    match tree {
        JsonTree::Text(s) => {
            lemma_capacity_words(s);
            assert(leads_to(tree, Seq::empty(), s));
        },
        JsonTree::Array(_) => {
            let items = tree->Array_0;
            let i = choose|i: int|
                0 <= i < items.len() && tree_mentions_capacity(#[trigger] items[i]);
            assert(decreases_to!(tree => tree->Array_0));
            assert(decreases_to!(items => items[i]));
            lemma_found_has_a_path(items[i]);
            let (path, found) = choose|path: Seq<Step>, found: Seq<char>| #[trigger]
                leads_to(items[i], path, found) && tells_of_capacity(found);
            let longer = seq![Step::Item(i)] + path;
            assert(longer.skip(1) =~= path);
            assert(leads_to(tree, longer, found));
        },
        JsonTree::Object(_) => {
            let fields = tree->Object_0;
            let key = choose|key: Seq<char>|
                fields.contains_key(key) && tree_mentions_capacity(#[trigger] fields[key]);
            assert(decreases_to!(tree => tree->Object_0[key]));
            lemma_found_has_a_path(fields[key]);
            let (path, found) = choose|path: Seq<Step>, found: Seq<char>| #[trigger]
                leads_to(fields[key], path, found) && tells_of_capacity(found);
            let longer = seq![Step::Member(key)] + path;
            assert(longer.skip(1) =~= path);
            assert(leads_to(tree, longer, found));
        },
        _ => {},
    }
}

/// A document tells of a model without capacity exactly if a path through it, however long, leads to
/// a string that does.
pub proof fn law_capacity_is_found_at_any_depth(value: &Json, found: bool)
    requires
        call_ensures(value_contains_model_capacity_error, (value,), found),
    ensures
        found <==> document_tells_of_capacity(value@),
{
    lemma_document(value@);
}

proof fn lemma_document(tree: JsonTree)
    ensures
        tree_mentions_capacity(tree) <==> document_tells_of_capacity(tree),
{
    if tree_mentions_capacity(tree) {
        lemma_found_has_a_path(tree);
    }
    if document_tells_of_capacity(tree) {
        let (path, found) = choose|path: Seq<Step>, found: Seq<char>| #[trigger]
            leads_to(tree, path, found) && tells_of_capacity(found);
        lemma_path_is_found(tree, path, found);
    }
}

/// `part` is where a document can stand in `text`: from its first brace on, or all of it where there
/// is none.
pub open spec fn is_document_part(text: Seq<char>, part: Seq<char>) -> bool {
    if text.contains('{') {
        exists|front: Seq<char>|
            !front.contains('{') && part.len() > 0 && part[0] == '{' && text == #[trigger] (front
                + part)
    } else {
        part == text
    }
}

proof fn lemma_document_part(text: Seq<char>)
    ensures
        is_document_part(text, json_part(text)),
    decreases text.len(),
{
    if text.contains('{') {
        lemma_from_first_brace(text);
    }
}

proof fn lemma_from_first_brace(text: Seq<char>)
    requires
        text.contains('{'),
    ensures
        ({
            let part = from_first(text, '{');
            let front = text.take(text.len() - part.len());
            part.len() > 0 && part.len() <= text.len() && part[0] == '{' && !front.contains('{')
                && text == front + part
        }),
    decreases text.len(),
{
    if text[0] != '{' {
        let rest = text.skip(1);
        let i = choose|i: int| 0 <= i < text.len() && text[i] == '{';
        assert(rest[i - 1] == '{');
        lemma_from_first_brace(rest);
        let part = from_first(text, '{');
        let front = text.take(text.len() - part.len());
        let inner = rest.take(rest.len() - part.len());
        assert(front =~= seq![text[0]] + inner);
        assert(text =~= seq![text[0]] + rest);
        assert(rest == inner + part);
        assert(text =~= front + part);
        if front.contains('{') {
            let j = choose|j: int| 0 <= j < front.len() && front[j] == '{';
            assert(inner[j - 1] == '{');
        }
    } else {
        let front = text.take(0);
        assert(text =~= front + text);
    }
}

/// An error tells of a model without capacity exactly if its text does, in whatever letters, or the
/// document in it does at any depth.
pub proof fn law_capacity_errors_are_recognised(text: &str, part: Seq<char>, found: bool)
    requires
        call_ensures(is_model_capacity_error, (text,), found),
        is_document_part(text@, part),
    ensures
        found <==> tells_of_capacity(text@) || (json_parse(part) matches Some(tree)
            && document_tells_of_capacity(tree)),
{
    lemma_error(text@, part);
}

/// Where a document can stand in an error is settled by the error.
proof fn lemma_one_document_part(text: Seq<char>, part: Seq<char>, other: Seq<char>)
    requires
        is_document_part(text, part),
        is_document_part(text, other),
    ensures
        part == other,
{
    if text.contains('{') {
        let front = choose|front: Seq<char>|
            !front.contains('{') && part.len() > 0 && part[0] == '{' && text == #[trigger] (front
                + part);
        let head = choose|head: Seq<char>|
            !head.contains('{') && other.len() > 0 && other[0] == '{' && text == #[trigger] (head
                + other);
        assert(text[front.len() as int] == '{');
        assert(text[head.len() as int] == '{');
        if front.len() < head.len() {
            assert(head[front.len() as int] == '{');
        }
        if head.len() < front.len() {
            assert(front[head.len() as int] == '{');
        }
        assert(part =~= text.skip(front.len() as int));
        assert(other =~= text.skip(front.len() as int));
    }
}

/// An error is one of capacity by its text or by the document in it.
pub open spec fn is_capacity_failure(text: Seq<char>) -> bool {
    tells_of_capacity(text) || exists|part: Seq<char>, tree: JsonTree|
        is_document_part(text, part) && #[trigger] json_parse(part) == Some(tree)
            && #[trigger] document_tells_of_capacity(tree)
}

proof fn lemma_error(text: Seq<char>, part: Seq<char>)
    requires
        is_document_part(text, part),
    ensures
        capacity_error(text) <==> tells_of_capacity(text) || (json_parse(
            part,
        ) matches Some(tree) && document_tells_of_capacity(tree)),
        capacity_error(text) <==> is_capacity_failure(text),
{
    lemma_document_part(text);
    lemma_one_document_part(text, part, json_part(text));
    lemma_capacity_words(text);
    if let Some(tree) = json_parse(part) {
        lemma_document(tree);
    }
    if is_capacity_failure(text) && !tells_of_capacity(text) {
        let (other, tree) = choose|other: Seq<char>, tree: JsonTree|
            is_document_part(text, other) && #[trigger] json_parse(other) == Some(tree)
                && #[trigger] document_tells_of_capacity(tree);
        lemma_one_document_part(text, other, part);
    }
}

/// A 503 waits half a second where it is one of capacity, else it doubles from ten seconds to a
/// minute; it is never given up.
pub proof fn law_unavailable_waits_by_capacity(
    text: &str,
    retried_without_thinking: bool,
    delay_ms: Option<u64>,
    strategy: RetryStrategy,
)
    requires
        call_ensures(
            determine_retry_strategy,
            (503u16, text, retried_without_thinking, delay_ms),
            strategy,
        ),
    ensures
        is_capacity_failure(text@) ==> waits_fixed(strategy, 500),
        !is_capacity_failure(text@) ==> strategy == (RetryStrategy::ExponentialBackoff {
            base_ms: 10000,
            max_ms: 60000,
        }),
{
    lemma_document_part(text@);
    lemma_error(text@, json_part(text@));
}

/// A text that tells of a location that is not served, in whatever letters.
pub open spec fn tells_of_location(text: Seq<char>) -> bool {
    stands_in(lowered(text), "user location is not supported"@)
}

/// A text that tells of a thinking signature that was not accepted, in these very letters.
pub open spec fn tells_of_signature(text: Seq<char>) -> bool {
    ||| stands_in(text, "Invalid `signature`"@)
    ||| stands_in(text, "thinking.signature"@)
    ||| stands_in(text, "thinking.thinking"@)
    ||| stands_in(text, "Corrupted thought signature"@)
}

proof fn lemma_bad_request(text: Seq<char>)
    ensures
        tells_of_location(text) <==> mentions_unsupported_location(lowered(text)),
        tells_of_signature(text) <==> mentions_thinking_signature(text),
{
    law_occurrence_is_a_split(lowered(text), "user location is not supported"@);
    law_occurrence_is_a_split(text, "Invalid `signature`"@);
    law_occurrence_is_a_split(text, "thinking.signature"@);
    law_occurrence_is_a_split(text, "thinking.thinking"@);
    law_occurrence_is_a_split(text, "Corrupted thought signature"@);
}

/// A bad request is tried again, after a fifth of a second, exactly if it tells of a location that is
/// not served, or of a signature and was not tried without thinking yet.
pub proof fn law_bad_request_is_tried_again_for_two_reasons(
    text: &str,
    retried_without_thinking: bool,
    delay_ms: Option<u64>,
    strategy: RetryStrategy,
)
    requires
        call_ensures(
            determine_retry_strategy,
            (400u16, text, retried_without_thinking, delay_ms),
            strategy,
        ),
    ensures
        tells_of_location(text@) || (!retried_without_thinking && tells_of_signature(text@))
            ==> waits_fixed(strategy, 200),
        !(tells_of_location(text@) || (!retried_without_thinking && tells_of_signature(text@)))
            ==> strategy == RetryStrategy::NoRetry,
{
    lemma_bad_request(text@);
}

/// Any other status is given up.
pub proof fn law_other_statuses_are_given_up(
    status: u16,
    text: &str,
    retried_without_thinking: bool,
    delay_ms: Option<u64>,
    strategy: RetryStrategy,
)
    requires
        call_ensures(
            determine_retry_strategy,
            (status, text, retried_without_thinking, delay_ms),
            strategy,
        ),
        status != 400 && status != 401 && status != 403 && status != 404 && status != 429 && status
            != 500 && status != 503 && status != 529,
    ensures
        strategy == RetryStrategy::NoRetry,
{
}

/// The wait before the next attempt: none after the last one or where there is no retry; the fixed
/// one as it is; the linear one grows by its base with every attempt; the exponential one doubles
/// with every attempt, up to its limit.
pub proof fn law_wait_formulas(
    strategy: &RetryStrategy,
    attempt: usize,
    max_attempts: usize,
    delay: Option<Duration>,
)
    requires
        call_ensures(retry_delay, (strategy, attempt, max_attempts), delay),
    ensures
        attempt + 1 >= max_attempts ==> delay is None,
        attempt + 1 < max_attempts ==> match strategy {
            RetryStrategy::NoRetry => delay is None,
            RetryStrategy::FixedDelay(wait) => delay is Some && duration_nanos(delay->0)
                == duration_nanos(*wait),
            RetryStrategy::GraceRetry(wait) => delay is Some && duration_nanos(delay->0)
                == duration_nanos(*wait),
            RetryStrategy::LinearBackoff { base_ms } => delay is Some && lasts(
                delay->0,
                base_ms * (attempt + 1),
            ),
            RetryStrategy::ExponentialBackoff { base_ms, max_ms } => {
                let doubled = *base_ms as nat * pow2(attempt as nat);
                &&& delay is Some
                &&& doubled <= *max_ms ==> lasts(delay->0, doubled as int)
                &&& doubled > *max_ms ==> lasts(delay->0, *max_ms as int)
            },
        },
{
}

/// From one attempt to the next an exponential wait doubles, unless it would pass its limit.
pub proof fn law_exponential_wait_doubles(
    base_ms: u64,
    max_ms: u64,
    attempt: usize,
    max_attempts: usize,
    delay: Option<Duration>,
    next_delay: Option<Duration>,
)
    requires
        attempt + 2 < max_attempts,
        call_ensures(
            retry_delay,
            (&RetryStrategy::ExponentialBackoff { base_ms, max_ms }, attempt, max_attempts),
            delay,
        ),
        call_ensures(
            retry_delay,
            (
                &RetryStrategy::ExponentialBackoff { base_ms, max_ms },
                (attempt + 1) as usize,
                max_attempts,
            ),
            next_delay,
        ),
    ensures
        delay is Some,
        next_delay is Some,
        ({
            let nanos = duration_nanos(delay->0);
            let next_nanos = duration_nanos(next_delay->0);
            next_nanos == if 2 * nanos <= max_ms * 1_000_000 {
                2 * nanos
            } else {
                (max_ms * 1_000_000) as nat
            }
        }),
{
    let base = base_ms as nat;
    let n = attempt as nat;
    vstd::arithmetic::power2::lemma_pow2_unfold(n + 1);
    assert(base * (2 * pow2(n)) == 2 * (base * pow2(n))) by (nonlinear_arith);
    assert(capped_double(base, n + 1, max_ms as nat) == if 2 * capped_double(base, n, max_ms as nat)
        <= max_ms {
        2 * capped_double(base, n, max_ms as nat)
    } else {
        max_ms as nat
    });
}

/// After these statuses, and no other, another account is tried; a wait on the same account keeps it.
pub proof fn law_rotation_by_status(
    status: u16,
    strategy: Option<&RetryStrategy>,
    rotate: bool,
)
    requires
        call_ensures(should_rotate_account, (status, strategy), rotate),
    ensures
        rotate <==> {
            &&& status == 401 || status == 403 || status == 404 || status == 429 || status == 500
            &&& !(strategy is Some && *strategy->0 is GraceRetry)
        },
{
}

/// Besides, another account is tried after a 400 that tells of a location that is not served and
/// after a 503 of capacity, whatever the strategy.
pub proof fn law_rotation_by_error(
    status: u16,
    strategy: Option<&RetryStrategy>,
    text: &str,
    by_status: bool,
    rotate: bool,
)
    requires
        call_ensures(should_rotate_account, (status, strategy), by_status),
        call_ensures(should_rotate_account_for_error, (status, strategy, text), rotate),
    ensures
        rotate <==> by_status || (status == 400 && tells_of_location(text@)) || (status == 503
            && is_capacity_failure(text@)),
{
    lemma_bad_request(text@);
    lemma_document_part(text@);
    lemma_error(text@, json_part(text@));
}

/// A request without a result ends with 503 where the last failure was a 503 of capacity, else with
/// 429.
pub proof fn law_exhausted_status(last_status: Option<u16>, text: &str, status: u16)
    requires
        call_ensures(exhausted_response_status, (last_status, text), status),
    ensures
        status == 503 || status == 429,
        status == 503 <==> last_status is Some && last_status->0 == 503 && is_capacity_failure(
            text@,
        ),
{
    lemma_document_part(text@);
    lemma_error(text@, json_part(text@));
}

/// The small questions: whether a location is not served, whether a document or a text tells of
/// capacity, whether a delay is short, and whether an attempt is left.
pub proof fn law_small_questions(
    text: &str,
    document: &Json,
    delay_ms: u64,
    attempt: usize,
    max_attempts: usize,
    location: bool,
    with_document: bool,
    without_document: bool,
    short: bool,
    remains: bool,
)
    requires
        call_ensures(is_unsupported_location_error, (text,), location),
        call_ensures(is_model_capacity_error_with, (Some(document), text), with_document),
        call_ensures(is_model_capacity_error_with, (None, text), without_document),
        call_ensures(should_grace_retry, (delay_ms,), short),
        call_ensures(has_retry_attempt_remaining, (attempt, max_attempts), remains),
    ensures
        location <==> tells_of_location(text@),
        with_document <==> tells_of_capacity(text@) || document_tells_of_capacity(document@),
        without_document <==> tells_of_capacity(text@),
        short <==> delay_ms <= 2000,
        remains <==> attempt + 1 < max_attempts,
{
    lemma_bad_request(text@);
    lemma_capacity_words(text@);
    lemma_document(document@);
}

/// An account is kept from being selected again exactly if it is left for another one; no other
/// account is.
pub proof fn law_left_accounts_are_recorded(should_rotate: bool, account_id: &str)
    ensures
        forall|accounts: &mut AccountSet, rotate: bool| #[trigger]
            call_ensures(
                record_account_for_rotation,
                (should_rotate, account_id, accounts),
                rotate,
            ) ==> {
                &&& rotate == should_rotate
                &&& forall|id: Seq<char>| #[trigger]
                    (*final(accounts))@.contains(id) <==> (*accounts)@.contains(id) || (
                    should_rotate && id == account_id@)
            },
{
}

} // verus!

//! What holds of a request from its first event to its last.

use crate::common::{millis, MAX_GRACE_DELAY_MS};
use crate::failover::{
    asks_for_validation, cooldown_after, hints_at_validation, stream_error, stream_serves,
    AccountView, CooldownView, GenerateView, PhaseView, StepView, StreamStart,
};
use crate::gemini::error_document;
use crate::pool_retry::{
    failure_scope, is_account_scope, law_recording_keeps_form, sanitized, PoolFailureScope,
    MAX_ACCOUNT_ATTEMPTS,
};
use crate::text::lowered;
use vstd::prelude::*;
use vstd::string::*;

verus! {

/// Something that happens to a request.
pub enum Event {
    /// The next attempt begins, where one is permitted.
    Begun,
    /// An account was selected.
    Selected(AccountView),
    /// No account could be had.
    NoAccount(Seq<char>),
    /// The upstream is called for this model.
    Called(Seq<char>),
    /// The upstream could not be reached.
    TransportFailed(Seq<char>),
    /// A stream began.
    StreamStarted(StreamStart),
    /// The upstream replied with a failure.
    HttpFailed {
        status: u16,
        text: Seq<char>,
        retry_after: Option<Seq<char>>,
        delay_ms: Option<u64>,
        let_it_crash: bool,
    },
}

/// The event can happen in this state.
pub open spec fn can_happen(view: GenerateView, event: Event) -> bool {
    match event {
        Event::Begun => view.phase is Ready,
        Event::Selected(_) => view.phase is Selecting,
        Event::NoAccount(_) => view.phase is Selecting,
        _ => view.phase is Attempting,
    }
}

/// The state after the event.
pub open spec fn after(view: GenerateView, event: Event) -> GenerateView {
    match event {
        Event::Begun => view.begun(),
        Event::Selected(account) => view.given(account),
        Event::NoAccount(error) => view.without_account(error),
        Event::Called(mapped_model) => view.calling(mapped_model),
        Event::TransportFailed(error) => view.after_transport(error),
        Event::StreamStarted(start) => if stream_serves(start) {
            view
        } else {
            view.after_stream(stream_error(view.last_error, start))
        },
        Event::HttpFailed { status, text, retry_after, delay_ms, let_it_crash } => view.after_http(
            status,
            text,
            retry_after,
            delay_ms,
            let_it_crash,
        ),
    }
}

/// An account that is excluded is not selected.
pub open spec fn honours_exclusion(view: GenerateView, event: Event) -> bool {
    event matches Event::Selected(account) ==> !view.excluded.contains(account.account_id)
}

/// The state after the events, one after the other.
pub open spec fn after_all(view: GenerateView, events: Seq<Event>) -> GenerateView
    decreases events.len(),
{
    if events.len() == 0 {
        view
    } else {
        after(after_all(view, events.drop_last()), events.last())
    }
}

/// The events can happen one after the other.
pub open spec fn can_all_happen(view: GenerateView, events: Seq<Event>) -> bool
    decreases events.len(),
{
    events.len() > 0 ==> {
        &&& can_all_happen(view, events.drop_last())
        &&& can_happen(after_all(view, events.drop_last()), events.last())
    }
}

/// None of the events selects an account that is excluded by then.
pub open spec fn all_honour_exclusion(view: GenerateView, events: Seq<Event>) -> bool
    decreases events.len(),
{
    events.len() > 0 ==> {
        &&& all_honour_exclusion(view, events.drop_last())
        &&& honours_exclusion(after_all(view, events.drop_last()), events.last())
    }
}

/// Every event leaves a well-formed state.
pub proof fn law_event_keeps_form(view: GenerateView, event: Event)
    requires
        view.well_formed(),
        can_happen(view, event),
    ensures
        after(view, event).well_formed(),
        after(view, event).pool.pool_size == view.pool.pool_size,
{
    if view.phase is Attempting {
        assert forall|failure| #![auto]
            view.pool.recorded(view.account().account_id, failure).well_formed() by {
            law_recording_keeps_form(view.pool, view.account().account_id, failure);
        }
    }
}

/// A request is well-formed at all times: it has made at most four attempts per account that it
/// may select, it has selected no more accounts than it may, failures are recorded and accounts
/// excluded only among those selected, and every account that failed for a reason of its own is
/// excluded.
pub proof fn law_request_is_well_formed(pool_size: nat, events: Seq<Event>)
    requires
        can_all_happen(GenerateView::start(pool_size), events),
    ensures
        after_all(GenerateView::start(pool_size), events).well_formed(),
        after_all(GenerateView::start(pool_size), events).pool.pool_size == pool_size,
    decreases events.len(),
{
    if events.len() > 0 {
        law_request_is_well_formed(pool_size, events.drop_last());
        law_event_keeps_form(
            after_all(GenerateView::start(pool_size), events.drop_last()),
            events.last(),
        );
    }
}

/// A request selects at most ten accounts and makes at most forty attempts, however large the pool
/// is; in a pool of no more than ten accounts, at most as many as there are.
pub proof fn law_request_is_bounded(pool_size: nat, events: Seq<Event>)
    requires
        can_all_happen(GenerateView::start(pool_size), events),
    ensures
        after_all(GenerateView::start(pool_size), events).selected.len() <= MAX_ACCOUNT_ATTEMPTS,
        after_all(GenerateView::start(pool_size), events).requests <= 4 * MAX_ACCOUNT_ATTEMPTS,
        pool_size > 0 ==> after_all(GenerateView::start(pool_size), events).selected.len()
            <= pool_size,
{
    law_request_is_well_formed(pool_size, events);
}

/// The second state remembers all that the first one does.
pub open spec fn remembers(later: GenerateView, earlier: GenerateView) -> bool {
    &&& earlier.requests <= later.requests
    &&& earlier.selected.subset_of(later.selected)
    &&& earlier.excluded.subset_of(later.excluded)
    &&& earlier.pool.attempted.subset_of(later.pool.attempted)
    &&& earlier.pool.limited.subset_of(later.pool.limited)
    &&& earlier.pool.rate_limited.subset_of(later.pool.rate_limited)
    &&& earlier.grace_retried.subset_of(later.grace_retried)
    &&& earlier.signature_retried.subset_of(later.signature_retried)
    &&& earlier.transport_retried.subset_of(later.transport_retried)
    &&& earlier.stream_retried.subset_of(later.stream_retried)
}

/// A request forgets nothing: an account once selected, excluded or asked again stays so.
pub proof fn law_nothing_is_forgotten(view: GenerateView, events: Seq<Event>)
    ensures
        remembers(after_all(view, events), view),
    decreases events.len(),
{
    if events.len() > 0 {
        law_nothing_is_forgotten(view, events.drop_last());
    }
}

/// The account that is asked, or asked next, is not excluded.
pub open spec fn asks_eligible(view: GenerateView) -> bool {
    &&& view.phase matches PhaseView::Attempting(account) ==> !view.excluded.contains(
        account.account_id,
    )
    &&& view.retry_account matches Some(account) ==> !view.excluded.contains(account.account_id)
}

/// Where excluded accounts are not selected, no account is selected twice, and none is asked after
/// it was excluded.
pub proof fn law_excluded_account_is_left_alone(pool_size: nat, events: Seq<Event>)
    requires
        can_all_happen(GenerateView::start(pool_size), events),
        all_honour_exclusion(GenerateView::start(pool_size), events),
    ensures
        asks_eligible(after_all(GenerateView::start(pool_size), events)),
        forall|i: int, account: AccountView|
            0 <= i < events.len() && #[trigger] events[i] == Event::Selected(account) ==> !after_all(
                GenerateView::start(pool_size),
                events.take(i),
            ).selected.contains(#[trigger] account.account_id),
    decreases events.len(),
{
    let start = GenerateView::start(pool_size);
    if events.len() > 0 {
        let front = events.drop_last();
        law_excluded_account_is_left_alone(pool_size, front);
        law_request_is_well_formed(pool_size, front);
        assert forall|i: int, account: AccountView|
            0 <= i < events.len() && #[trigger] events[i] == Event::Selected(
                account,
            ) implies !after_all(start, events.take(i)).selected.contains(
            #[trigger] account.account_id,
        ) by {
            if i < front.len() {
                assert(front[i] == events[i]);
                assert(front.take(i) =~= events.take(i));
            } else {
                assert(front =~= events.take(i));
            }
        }
    }
}

/// The attempts that are accounted for: one for each account selected, and one for each account
/// that was asked again after a short wait, with a repaired request, after a transport failure or
/// after a stream that did not start.
pub open spec fn accounted(view: GenerateView) -> nat {
    view.selected.len() + view.grace_retried.len() + view.signature_retried.len()
        + view.transport_retried.len() + view.stream_retried.len()
}

/// The attempts and the accounts agree.
pub open spec fn adds_up(view: GenerateView) -> bool {
    match view.phase {
        PhaseView::Ready => accounted(view) == view.requests + if view.retry_account is Some {
            1nat
        } else {
            0nat
        },
        PhaseView::Selecting => accounted(view) + 1 == view.requests,
        PhaseView::Attempting(_) => accounted(view) == view.requests,
        PhaseView::Finished => view.requests <= accounted(view) + 1,
    }
}

/// Where excluded accounts are not selected, an account is asked once, and once more for each of
/// the four reasons to ask the same account again: the attempts are exactly those.
pub proof fn law_attempts_add_up(pool_size: nat, events: Seq<Event>)
    requires
        can_all_happen(GenerateView::start(pool_size), events),
        all_honour_exclusion(GenerateView::start(pool_size), events),
    ensures
        adds_up(after_all(GenerateView::start(pool_size), events)),
    decreases events.len(),
{
    if events.len() > 0 {
        let before = after_all(GenerateView::start(pool_size), events.drop_last());
        law_attempts_add_up(pool_size, events.drop_last());
        law_request_is_well_formed(pool_size, events.drop_last());
        vstd::set_lib::lemma_len_subset(before.grace_retried, before.selected);
        vstd::set_lib::lemma_len_subset(before.signature_retried, before.selected);
        vstd::set_lib::lemma_len_subset(before.transport_retried, before.selected);
        vstd::set_lib::lemma_len_subset(before.stream_retried, before.selected);
    }
}

/// A wait before the next attempt runs only where an attempt follows it, lasts no longer than the
/// two seconds that are waited out on one account and a tenth on top, and comes once for an
/// account and a reason.
pub proof fn law_waits_are_short_and_rare(
    view: GenerateView,
    status: u16,
    text: Seq<char>,
    retry_after: Option<Seq<char>>,
    delay_ms: Option<u64>,
    let_it_crash: bool,
)
    requires
        view.well_formed(),
        view.phase is Attempting,
    ensures
        match view.http_step(status, text, retry_after, delay_ms, let_it_crash) {
            StepView::RepairAndRetry(wait) => {
                let later = view.after_http(status, text, retry_after, delay_ms, let_it_crash);
                &&& wait is Some <==> later.may_go_on()
                &&& wait is Some ==> wait == Some(millis(200))
                &&& !view.signature_retried.contains(view.account().account_id)
                &&& later.signature_retried.contains(view.account().account_id)
                &&& later.begun().phase is Attempting ==> later.begun().account() == view.account()
            },
            StepView::WaitAndRetry(wait) => {
                let later = view.after_http(status, text, retry_after, delay_ms, let_it_crash);
                &&& wait is Some <==> later.may_go_on()
                &&& wait matches Some(nanos) ==> nanos <= millis((MAX_GRACE_DELAY_MS + 100) as nat)
                &&& !view.grace_retried.contains(view.account().account_id)
                &&& later.grace_retried.contains(view.account().account_id)
                &&& later.begun().phase is Attempting ==> later.begun().account() == view.account()
            },
            _ => true,
        },
{
}

/// A provider without capacity for the model: the reply tells so at once, and no account rests,
/// is excluded or counts as limited for it.
pub proof fn law_provider_capacity_is_told(
    view: GenerateView,
    status: u16,
    text: Seq<char>,
    retry_after: Option<Seq<char>>,
    delay_ms: Option<u64>,
    let_it_crash: bool,
)
    requires
        view.well_formed(),
        view.phase is Attempting,
        failure_scope(status, text) == PoolFailureScope::ProviderModel,
    ensures
        match view.http_step(status, text, retry_after, delay_ms, let_it_crash) {
            StepView::Respond(cooldown, reply) => cooldown == CooldownView::NotNeeded && reply.status
                == 503 && reply.body == error_document(503, text),
            _ => false,
        },
        ({
            let later = view.after_http(status, text, retry_after, delay_ms, let_it_crash);
            later.excluded == view.excluded && later.pool.limited == view.pool.limited
                && later.phase == PhaseView::Finished
        }),
{
}

/// A failure of one account leads to another account, as long as one may be selected: the account
/// is excluded, and the next attempt selects an account.
pub proof fn law_account_failure_rotates(
    view: GenerateView,
    status: u16,
    text: Seq<char>,
    retry_after: Option<Seq<char>>,
    delay_ms: Option<u64>,
)
    requires
        view.well_formed(),
        view.phase is Attempting,
        is_account_scope(failure_scope(status, text)),
        view.selected.len() < view.max_accounts(),
        view.requests < view.max_requests(),
        !view.repairs(status, text),
        !view.waits(status, text, delay_ms),
    ensures
        view.http_step(status, text, retry_after, delay_ms, false) == StepView::Rotate(
            cooldown_after(status, text),
        ),
        ({
            let later = view.after_http(status, text, retry_after, delay_ms, false);
            &&& later.excluded == view.excluded.insert(view.account().account_id)
            &&& later.force_rotate
            &&& later.begun().phase == PhaseView::Selecting
        }),
{
}

/// A failure that asks for verification or tells of a risk control blocks its account, whatever the
/// status: until it is verified, or as forbidden where the status is 403 and the text asks for no
/// verification.
pub proof fn law_verification_failure_blocks(status: u16, text: Seq<char>)
    requires
        asks_for_validation(lowered(text)) || hints_at_validation(lowered(text)),
    ensures
        failure_scope(status, text) == PoolFailureScope::AccountAuth,
        cooldown_after(status, text) == if status == 403 && !asks_for_validation(lowered(text)) {
            CooldownView::Forbidden(sanitized(text))
        } else {
            CooldownView::ValidationBlocked(sanitized(text))
        },
{
}

/// A failure is held against the account that it came from alone.
pub proof fn law_failure_stays_with_its_account(view: GenerateView, event: Event)
    requires
        view.well_formed(),
        can_happen(view, event),
        view.phase is Attempting,
    ensures
        after(view, event).excluded.subset_of(view.excluded.insert(view.account().account_id)),
        after(view, event).pool.attempted.subset_of(
            view.pool.attempted.insert(view.account().account_id),
        ),
        after(view, event).pool.limited.subset_of(
            view.pool.limited.insert(view.account().account_id),
        ),
{
}

/// A request that ends without a result always tells why.
pub proof fn law_final_reply_has_a_message(view: GenerateView)
    ensures
        view.final_error().len() > 0,
        view.final_reply().body == error_document(view.final_reply().status, view.final_error()),
{
    reveal_strlit("No eligible AGM account could complete the request");
}

/// Where every account selected ran into a rate or quota limit, the request ends with 429 if those
/// are all accounts of a pool that it can go through, else with 503.
pub proof fn law_limited_accounts_end_the_request(pool_size: nat, events: Seq<Event>)
    requires
        can_all_happen(GenerateView::start(pool_size), events),
        after_all(GenerateView::start(pool_size), events).selected.len() > 0,
        after_all(GenerateView::start(pool_size), events).selected.subset_of(
            after_all(GenerateView::start(pool_size), events).pool.rate_limited,
        ),
    ensures
        ({
            let last = after_all(GenerateView::start(pool_size), events);
            last.final_reply().status == if 0 < pool_size <= MAX_ACCOUNT_ATTEMPTS
                && last.selected.len() == pool_size {
                429u16
            } else {
                503u16
            }
        }),
{
    law_request_is_well_formed(pool_size, events);
    let last = after_all(GenerateView::start(pool_size), events);
    assert(last.pool.rate_limited =~= last.selected);
    assert(last.pool.limited =~= last.selected);
    assert(last.pool.attempted =~= last.selected);
    if pool_size == 0 {
        assert(!last.pool.exhausted());
    }
}

/// A request that ends with 429 went through a pool in which every account ran into a rate or quota
/// limit, or its last HTTP failure had that very status.
pub proof fn law_final_429_has_a_reason(view: GenerateView)
    requires
        view.final_reply().status == 429,
    ensures
        (view.pool.exhausted() && view.pool.all_rate_limited()) || (view.pool.has_http_failure()
            && view.pool.last_failure->0.status == 429),
{
}

/// Where some account failed without a rate or quota limit, the request ends with the status of the
/// last HTTP failure.
pub proof fn law_other_statuses_are_kept(view: GenerateView, id: Seq<char>)
    requires
        view.pool.attempted.contains(id),
        !view.pool.rate_limited.contains(id),
        view.pool.has_http_failure(),
        100 <= view.pool.last_failure->0.status <= 999,
    ensures
        view.final_reply().status == view.pool.last_failure->0.status,
{
}

} // verus!

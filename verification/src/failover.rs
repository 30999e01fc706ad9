//! One request for content, as it goes through the accounts of a pool: which account is tried
//! next, what a failure leads to, and the reply that the request ends with.

use crate::accounts::AccountSet;
use crate::common::{
    determine_retry_strategy, duration_nanos, millis, retry_delay, retry_strategy, retry_wait,
    RetryStrategy, StrategyView,
};
use crate::gemini::{error_reply, gemini_error_response, unread_error, ErrorReply, ReplyView};
use crate::models::{refuse_without_token, Refusal};
use crate::pool_retry::{
    account_attempts, classified, classify_pool_failure, failure_scope, gemini_action,
    gemini_retry_action, is_account_scope, law_recording_keeps_form, sanitized, str_view,
    string_view, transport_failure, FailureView, GeminiRetryAction, PoolAttemptState, PoolFailure,
    PoolFailureScope, PoolView,
};
use crate::text;
use crate::text::{decimal, lowered, occurs};
use std::time::Duration;
use vstd::prelude::*;
use vstd::string::*;

verus! {

/// An account and what is needed to call the upstream with it.
#[derive(Debug)]
pub struct GeminiAccount {
    pub access_token: String,
    pub project_id: String,
    pub email: String,
    pub account_id: String,
}

/// What a [`GeminiAccount`] says.
pub struct AccountView {
    pub access_token: Seq<char>,
    pub project_id: Seq<char>,
    pub email: Seq<char>,
    pub account_id: Seq<char>,
}

impl View for GeminiAccount {
    type V = AccountView;

    open spec fn view(&self) -> AccountView {
        AccountView {
            access_token: self.access_token@,
            project_id: self.project_id@,
            email: self.email@,
            account_id: self.account_id@,
        }
    }
}

/// Where a request stands.
#[derive(Debug)]
enum Phase {
    /// Between attempts.
    Ready,
    /// An attempt waits for an account.
    Selecting,
    /// An attempt is under way.
    Attempting(GeminiAccount),
    /// No attempt follows.
    Finished,
}

/// What a phase says.
pub enum PhaseView {
    Ready,
    Selecting,
    Attempting(AccountView),
    Finished,
}

/// What the state of a request says.
#[verifier::ext_equal]
pub struct GenerateView {
    /// The failures recorded.
    pub pool: PoolView,
    /// The attempts begun.
    pub requests: nat,
    /// The accounts that were selected.
    pub selected: Set<Seq<char>>,
    /// The accounts that are not selected again.
    pub excluded: Set<Seq<char>>,
    /// The accounts on which a short wait was waited out.
    pub grace_retried: Set<Seq<char>>,
    /// The accounts that were asked again with a repaired request.
    pub signature_retried: Set<Seq<char>>,
    /// The accounts that were asked again after a transport failure.
    pub transport_retried: Set<Seq<char>>,
    /// The accounts that were asked again after a stream that did not start.
    pub stream_retried: Set<Seq<char>>,
    /// The account that the next attempt uses.
    pub retry_account: Option<AccountView>,
    /// Whether the next account is to be another one.
    pub force_rotate: bool,
    pub last_error: Seq<char>,
    pub last_email: Option<Seq<char>>,
    pub last_mapped_model: Option<Seq<char>>,
    pub phase: PhaseView,
}

/// How a stream began.
pub enum StreamStart {
    /// With a chunk of this many bytes.
    Chunk(usize),
    /// With an error.
    Error(String),
    /// It ended without a chunk.
    Ended,
    /// Nothing came in time.
    TimedOut,
}

/// The error that is kept of a stream that began like this, where `last_error` was kept before.
pub open spec fn stream_error(last_error: Seq<char>, start: StreamStart) -> Seq<char> {
    let told = match start {
        StreamStart::Chunk(_) => last_error,
        StreamStart::Error(error) => "Stream error: "@ + error@,
        StreamStart::Ended => "Empty response"@,
        StreamStart::TimedOut => "First chunk timeout"@,
    };
    if told.len() == 0 {
        "Empty or incomplete upstream stream"@
    } else {
        told
    }
}

/// The stream has begun and can be passed on.
pub open spec fn stream_serves(start: StreamStart) -> bool {
    start matches StreamStart::Chunk(bytes) && bytes > 0
}

/// The error that is kept of an HTTP failure.
pub open spec fn http_error(status: u16, text: Seq<char>) -> Seq<char> {
    "HTTP "@ + decimal(status as nat) + ": "@ + text
}

/// An HTTP failure after which the same account is asked once more with a repaired request.
pub open spec fn is_signature_failure(status: u16, text: Seq<char>) -> bool {
    &&& status == 400
    &&& {
        ||| occurs(text, "Invalid `signature`"@)
        ||| occurs(text, "thinking.signature"@)
        ||| occurs(text, "Invalid signature"@)
        ||| occurs(text, "Corrupted thought signature"@)
    }
}

/// A text in small letters that asks for the account to be verified.
pub open spec fn asks_for_validation(text: Seq<char>) -> bool {
    ||| occurs(text, "validation_required"@)
    ||| occurs(text, "verify your account"@)
    ||| occurs(text, "validation_url"@)
    ||| occurs(text, "validationurl"@)
}

/// A text in small letters that tells of a verification or a risk control in other words.
pub open spec fn hints_at_validation(text: Seq<char>) -> bool {
    ||| occurs(text, "account verification"@)
    ||| occurs(text, "validation url"@)
    ||| occurs(text, "appeal_url"@)
    ||| occurs(text, "further action is required"@)
    ||| occurs(text, "risk-control"@)
    ||| occurs(text, "risk_control"@)
    ||| occurs(text, "risk control"@)
}

/// Why an account has to rest; the reason is free of secrets.
#[derive(Debug, PartialEq, Eq)]
pub enum Cooldown {
    /// It does not have to.
    NotNeeded,
    /// The model is limited for it.
    RateLimited(String),
    /// It has to be verified first.
    ValidationBlocked(String),
    /// It may not use the upstream.
    Forbidden(String),
}

/// What a [`Cooldown`] says.
pub enum CooldownView {
    NotNeeded,
    RateLimited(Seq<char>),
    ValidationBlocked(Seq<char>),
    Forbidden(Seq<char>),
}

impl View for Cooldown {
    type V = CooldownView;

    open spec fn view(&self) -> CooldownView {
        match *self {
            Cooldown::NotNeeded => CooldownView::NotNeeded,
            Cooldown::RateLimited(reason) => CooldownView::RateLimited(reason@),
            Cooldown::ValidationBlocked(reason) => CooldownView::ValidationBlocked(reason@),
            Cooldown::Forbidden(reason) => CooldownView::Forbidden(reason@),
        }
    }
}

/// Why an account has to rest after an HTTP failure with this status and body.
pub open spec fn cooldown_after(status: u16, text: Seq<char>) -> CooldownView {
    match failure_scope(status, text) {
        PoolFailureScope::AccountModel => CooldownView::RateLimited(sanitized(text)),
        PoolFailureScope::AccountAuth => if asks_for_validation(lowered(text)) {
            CooldownView::ValidationBlocked(sanitized(text))
        } else if status == 403 {
            CooldownView::Forbidden(sanitized(text))
        } else if hints_at_validation(lowered(text)) {
            CooldownView::ValidationBlocked(sanitized(text))
        } else {
            CooldownView::NotNeeded
        },
        _ => CooldownView::NotNeeded,
    }
}

/// What to do after an HTTP failure.
#[derive(Debug)]
pub enum HttpStep {
    /// Repair the request, wait if so told, and go on to the next attempt.
    RepairAndRetry(Option<Duration>),
    /// Wait if so told, and go on to the next attempt.
    WaitAndRetry(Option<Duration>),
    /// Let the account rest, and go on to the next attempt.
    Rotate(Cooldown),
    /// Let the account rest, and end the request.
    Finish(Cooldown),
    /// Let the account rest, and reply.
    Respond(Cooldown, ErrorReply),
}

/// What an [`HttpStep`] says, waits in nanoseconds.
pub enum StepView {
    RepairAndRetry(Option<nat>),
    WaitAndRetry(Option<nat>),
    Rotate(CooldownView),
    Finish(CooldownView),
    Respond(CooldownView, ReplyView),
}

/// The nanoseconds of a wait, if there is one.
pub open spec fn wait_nanos(wait: Option<Duration>) -> Option<nat> {
    match wait {
        Some(duration) => Some(duration_nanos(duration)),
        None => None,
    }
}

impl View for HttpStep {
    type V = StepView;

    open spec fn view(&self) -> StepView {
        match *self {
            HttpStep::RepairAndRetry(wait) => StepView::RepairAndRetry(wait_nanos(wait)),
            HttpStep::WaitAndRetry(wait) => StepView::WaitAndRetry(wait_nanos(wait)),
            HttpStep::Rotate(cooldown) => StepView::Rotate(cooldown@),
            HttpStep::Finish(cooldown) => StepView::Finish(cooldown@),
            HttpStep::Respond(cooldown, reply) => StepView::Respond(cooldown@, reply@),
        }
    }
}

impl GenerateView {
    /// A request before its first attempt.
    pub open spec fn start(pool_size: nat) -> GenerateView {
        GenerateView {
            pool: PoolView::start(pool_size),
            requests: 0,
            selected: Set::empty(),
            excluded: Set::empty(),
            grace_retried: Set::empty(),
            signature_retried: Set::empty(),
            transport_retried: Set::empty(),
            stream_retried: Set::empty(),
            retry_account: None,
            force_rotate: false,
            last_error: Seq::empty(),
            last_email: None,
            last_mapped_model: None,
            phase: PhaseView::Ready,
        }
    }

    /// The most accounts that the request selects.
    pub open spec fn max_accounts(self) -> nat {
        if account_attempts(self.pool.pool_size) > 1 {
            account_attempts(self.pool.pool_size)
        } else {
            1
        }
    }

    /// The most attempts that the request makes.
    pub open spec fn max_requests(self) -> nat {
        4 * self.max_accounts()
    }

    /// The account of the attempt that is under way.
    pub open spec fn account(self) -> AccountView {
        self.phase->Attempting_0
    }

    /// What holds of every state of a request.
    pub open spec fn well_formed(self) -> bool {
        &&& self.pool.well_formed()
        &&& self.requests <= self.max_requests()
        &&& self.selected.finite()
        &&& self.selected.len() <= self.max_accounts()
        &&& self.excluded.subset_of(self.selected)
        &&& self.pool.attempted.subset_of(self.selected)
        &&& self.grace_retried.subset_of(self.selected)
        &&& self.signature_retried.subset_of(self.selected)
        &&& self.transport_retried.subset_of(self.selected)
        &&& self.stream_retried.subset_of(self.selected)
        &&& self.pool.limited.subset_of(self.excluded)
        &&& self.retry_account matches Some(account) ==> self.phase is Ready
            && self.selected.contains(account.account_id)
        &&& match self.phase {
            PhaseView::Ready => self.selected.subset_of(
                match self.retry_account {
                    Some(account) => self.excluded.insert(account.account_id),
                    None => self.excluded,
                },
            ),
            PhaseView::Selecting => self.requests > 0 && self.selected.len() < self.max_accounts()
                && self.selected.subset_of(self.excluded),
            PhaseView::Attempting(account) => self.requests > 0 && self.selected.contains(
                account.account_id,
            ) && self.selected.subset_of(self.excluded.insert(account.account_id)),
            PhaseView::Finished => true,
        }
    }

    /// Another attempt is permitted.
    pub open spec fn may_go_on(self) -> bool {
        &&& self.requests < self.max_requests()
        &&& self.retry_account is Some || self.selected.len() < self.max_accounts()
    }

    /// The state after the next attempt has begun, or the request has ended for want of one.
    pub open spec fn begun(self) -> GenerateView {
        if self.may_go_on() {
            GenerateView {
                requests: self.requests + 1,
                retry_account: None,
                phase: match self.retry_account {
                    Some(account) => PhaseView::Attempting(account),
                    None => PhaseView::Selecting,
                },
                ..self
            }
        } else {
            GenerateView { retry_account: None, phase: PhaseView::Finished, ..self }
        }
    }

    /// The state after an account has been selected for the attempt.
    pub open spec fn given(self, account: AccountView) -> GenerateView {
        GenerateView {
            selected: self.selected.insert(account.account_id),
            phase: PhaseView::Attempting(account),
            ..self
        }
    }

    /// The state after no account could be had for the attempt.
    pub open spec fn without_account(self, error: Seq<char>) -> GenerateView {
        GenerateView {
            last_error: if self.selected == Set::<Seq<char>>::empty() {
                self.last_error
            } else {
                "Token error after pool attempts: "@ + error
            },
            phase: PhaseView::Finished,
            ..self
        }
    }

    /// The state when the upstream is about to be called for this model.
    pub open spec fn calling(self, mapped_model: Seq<char>) -> GenerateView {
        GenerateView {
            last_email: Some(self.account().email),
            last_mapped_model: Some(mapped_model),
            ..self
        }
    }

    /// The state in which the next attempt uses the account of this one.
    pub open spec fn reusing(self) -> GenerateView {
        GenerateView {
            retry_account: Some(self.account()),
            force_rotate: false,
            phase: PhaseView::Ready,
            ..self
        }
    }

    /// The state after a failure that ends the request is recorded for the account of the attempt.
    pub open spec fn failing(self, failure: FailureView, exclude: bool) -> GenerateView {
        GenerateView {
            pool: self.pool.recorded(self.account().account_id, failure),
            excluded: if exclude {
                self.excluded.insert(self.account().account_id)
            } else {
                self.excluded
            },
            phase: PhaseView::Finished,
            ..self
        }
    }

    /// The state after the upstream could not be reached: the same account is asked once more,
    /// then the failure is recorded.
    pub open spec fn after_transport(self, error: Seq<char>) -> GenerateView {
        let id = self.account().account_id;
        let told = GenerateView { last_error: error, ..self };
        if self.transport_retried.contains(id) {
            told.failing(transport_failure(error), true)
        } else {
            GenerateView { transport_retried: self.transport_retried.insert(id), ..told }.reusing()
        }
    }

    /// The state after a stream that cannot be passed on: the same account is asked once more,
    /// then the failure is recorded.
    pub open spec fn after_stream(self, error: Seq<char>) -> GenerateView {
        let id = self.account().account_id;
        let told = GenerateView { last_error: error, ..self };
        if self.stream_retried.contains(id) {
            told.failing(transport_failure(error), true)
        } else {
            GenerateView { stream_retried: self.stream_retried.insert(id), ..told }.reusing()
        }
    }

    /// The accounts that can still be selected.
    pub open spec fn remaining(self) -> nat {
        if self.selected.len() < self.max_accounts() {
            (self.max_accounts() - self.selected.len()) as nat
        } else {
            0
        }
    }

    /// The failure leads to one more request on the same account, with the request repaired.
    pub open spec fn repairs(self, status: u16, text: Seq<char>) -> bool {
        &&& is_signature_failure(status, text)
        &&& !self.signature_retried.contains(self.account().account_id)
    }

    /// The failure leads to one more request on the same account, after a short wait.
    pub open spec fn waits(self, status: u16, text: Seq<char>, delay_ms: Option<u64>) -> bool {
        &&& retry_strategy(status, text, false, delay_ms) is GraceRetry
        &&& !self.grace_retried.contains(self.account().account_id)
    }

    /// The wait before the next attempt; none where this one was the last.
    pub open spec fn wait(self, strategy: StrategyView) -> Option<nat> {
        retry_wait(strategy, (self.requests - 1) as nat, self.max_requests())
    }

    /// The state after an HTTP failure.
    pub open spec fn after_http(
        self,
        status: u16,
        text: Seq<char>,
        retry_after: Option<Seq<char>>,
        delay_ms: Option<u64>,
        let_it_crash: bool,
    ) -> GenerateView {
        let id = self.account().account_id;
        let told = GenerateView { last_error: http_error(status, text), ..self };
        if self.repairs(status, text) {
            GenerateView { signature_retried: self.signature_retried.insert(id), ..told }.reusing()
        } else if self.waits(status, text, delay_ms) {
            GenerateView { grace_retried: self.grace_retried.insert(id), ..told }.reusing()
        } else {
            let failure = classified(status, text, retry_after);
            let failed = told.failing(failure, is_account_scope(failure.scope));
            let rotates = !(let_it_crash && self.requests > 1) && gemini_action(
                failure.scope,
                self.remaining(),
            ) == GeminiRetryAction::CooldownAndRotate;
            if rotates {
                GenerateView { force_rotate: true, phase: PhaseView::Ready, ..failed }
            } else {
                failed
            }
        }
    }

    /// What to do after an HTTP failure.
    pub open spec fn http_step(
        self,
        status: u16,
        text: Seq<char>,
        retry_after: Option<Seq<char>>,
        delay_ms: Option<u64>,
        let_it_crash: bool,
    ) -> StepView {
        let scope = failure_scope(status, text);
        let cooldown = cooldown_after(status, text);
        let reply = error_reply(
            status,
            text,
            Some(self.account().email),
            self.last_mapped_model,
            retry_after,
        );
        if self.repairs(status, text) {
            StepView::RepairAndRetry(self.wait(StrategyView::FixedDelay(millis(200))))
        } else if self.waits(status, text, delay_ms) {
            StepView::WaitAndRetry(self.wait(retry_strategy(status, text, false, delay_ms)))
        } else if let_it_crash && self.requests > 1 {
            StepView::Respond(cooldown, reply)
        } else if gemini_action(scope, self.remaining()) == GeminiRetryAction::CooldownAndRotate {
            StepView::Rotate(cooldown)
        } else if is_account_scope(scope) {
            StepView::Finish(cooldown)
        } else {
            StepView::Respond(cooldown, reply)
        }
    }

    /// The message that a request without a result ends with.
    pub open spec fn final_error(self) -> Seq<char> {
        if self.pool.last_failure is Some && self.pool.last_failure->0.sanitized_error.len() > 0 {
            self.pool.last_failure->0.sanitized_error
        } else if self.last_error.len() > 0 {
            self.last_error
        } else {
            "No eligible AGM account could complete the request"@
        }
    }

    /// The reply that a request without a result ends with.
    pub open spec fn final_reply(self) -> ReplyView {
        error_reply(
            self.pool.terminal_status(),
            self.final_error(),
            self.last_email,
            self.last_mapped_model,
            self.pool.retry_after(),
        )
    }
}

/// What to do after a stream began.
#[derive(Debug, PartialEq, Eq, Structural)]
pub enum StreamStep {
    /// Pass it on.
    Serve,
    /// Go on to the next attempt.
    Retry,
    /// End the request.
    Finish,
}

/// How a request goes on.
#[derive(Debug, PartialEq, Eq, Structural)]
pub enum NextAttempt {
    /// It ends; [`GenerateState::finish`] gives the reply.
    Finish,
    /// With an account that has to be selected.
    Select,
    /// With the account of the attempt before.
    Reuse,
}

/// The state of a request for content.
#[derive(Debug)]
pub struct GenerateState {
    pool_attempts: PoolAttemptState,
    request_attempts: usize,
    selected_account_ids: AccountSet,
    excluded_account_ids: AccountSet,
    grace_retried_accounts: AccountSet,
    signature_retried_accounts: AccountSet,
    transport_retried_accounts: AccountSet,
    stream_retried_accounts: AccountSet,
    retry_account: Option<GeminiAccount>,
    force_rotate: bool,
    last_error: String,
    last_email: Option<String>,
    last_mapped_model: Option<String>,
    phase: Phase,
}

impl View for GenerateState {
    type V = GenerateView;

    closed spec fn view(&self) -> GenerateView {
        GenerateView {
            pool: self.pool_attempts@,
            requests: self.request_attempts as nat,
            selected: self.selected_account_ids@,
            excluded: self.excluded_account_ids@,
            grace_retried: self.grace_retried_accounts@,
            signature_retried: self.signature_retried_accounts@,
            transport_retried: self.transport_retried_accounts@,
            stream_retried: self.stream_retried_accounts@,
            retry_account: match self.retry_account {
                Some(account) => Some(account@),
                None => None,
            },
            force_rotate: self.force_rotate,
            last_error: self.last_error@,
            last_email: string_view(self.last_email),
            last_mapped_model: string_view(self.last_mapped_model),
            phase: match self.phase {
                Phase::Ready => PhaseView::Ready,
                Phase::Selecting => PhaseView::Selecting,
                Phase::Attempting(account) => PhaseView::Attempting(account@),
                Phase::Finished => PhaseView::Finished,
            },
        }
    }
}

impl GenerateState {
    /// A request before its first attempt, in a pool of `pool_size` accounts.
    pub fn new(pool_size: usize) -> (state: Self)
        ensures
            state@ == GenerateView::start(pool_size as nat),
            state@.well_formed(),
    {
        GenerateState {
            pool_attempts: PoolAttemptState::new(pool_size),
            request_attempts: 0,
            selected_account_ids: AccountSet::new(),
            excluded_account_ids: AccountSet::new(),
            grace_retried_accounts: AccountSet::new(),
            signature_retried_accounts: AccountSet::new(),
            transport_retried_accounts: AccountSet::new(),
            stream_retried_accounts: AccountSet::new(),
            retry_account: None,
            force_rotate: false,
            last_error: String::new(),
            last_email: None,
            last_mapped_model: None,
            phase: Phase::Ready,
        }
    }

    /// The most accounts that the request selects.
    pub fn max_account_attempts(&self) -> (n: usize)
        ensures
            n == self@.max_accounts(),
    {
        let permitted: usize = self.pool_attempts.max_account_attempts();
        if permitted > 1 {
            permitted
        } else {
            1
        }
    }

    /// The most attempts that the request makes.
    pub fn max_request_attempts(&self) -> (n: usize)
        ensures
            n == self@.max_requests(),
    {
        self.max_account_attempts() * 4
    }

    /// The attempts begun.
    pub fn request_attempts(&self) -> (n: usize)
        ensures
            n == self@.requests,
    {
        self.request_attempts
    }

    /// The number of accounts that were selected.
    pub fn selected_account_count(&self) -> (n: usize)
        ensures
            n == self@.selected.len(),
    {
        self.selected_account_ids.len()
    }

    /// The accounts that are not selected again.
    pub fn excluded_account_ids(&self) -> (ids: &AccountSet)
        ensures
            ids@ == self@.excluded,
    {
        &self.excluded_account_ids
    }

    /// Whether the next account is to be another one.
    pub fn force_rotate(&self) -> (force: bool)
        ensures
            force == self@.force_rotate,
    {
        self.force_rotate
    }

    /// The failures recorded.
    pub fn pool_attempts(&self) -> (state: &PoolAttemptState)
        ensures
            state@ == self@.pool,
    {
        &self.pool_attempts
    }

    /// The account of the attempt that is under way.
    pub fn account(&self) -> (account: Option<&GeminiAccount>)
        ensures
            match account {
                Some(account) => self@.phase == PhaseView::Attempting(account@),
                None => !(self@.phase is Attempting),
            },
    {
        match &self.phase {
            Phase::Attempting(account) => Some(account),
            _ => None,
        }
    }

    /// Begins the next attempt, where one is permitted.
    pub fn next_attempt(&mut self) -> (next: NextAttempt)
        requires
            old(self)@.well_formed(),
            old(self)@.phase is Ready,
        ensures
            final(self)@.well_formed(),
            next == NextAttempt::Finish <==> !old(self)@.may_go_on(),
            next == NextAttempt::Reuse <==> old(self)@.may_go_on() && old(
                self,
            )@.retry_account is Some,
            final(self)@ == old(self)@.begun(),
    {
        if self.request_attempts >= self.max_request_attempts() || (self.retry_account.is_none()
            && self.selected_account_ids.len() >= self.max_account_attempts()) {
            self.retry_account = None;
            self.phase = Phase::Finished;
            return NextAttempt::Finish;
        }
        self.request_attempts = self.request_attempts + 1;
        match self.retry_account.take() {
            Some(account) => {
                self.phase = Phase::Attempting(account);
                NextAttempt::Reuse
            },
            None => {
                self.phase = Phase::Selecting;
                NextAttempt::Select
            },
        }
    }

    /// Goes on with an account that was selected.
    pub fn account_selected(&mut self, account: GeminiAccount)
        requires
            old(self)@.well_formed(),
            old(self)@.phase is Selecting,
        ensures
            final(self)@.well_formed(),
            final(self)@ == old(self)@.given(account@),
    {
        self.selected_account_ids.insert(account.account_id.clone());
        self.phase = Phase::Attempting(account);
    }

    /// Goes on where no account could be had: a refusal where none was selected before, else the
    /// request ends.
    pub fn token_failed(&mut self, error: &str) -> (refusal: Option<Refusal>)
        requires
            old(self)@.well_formed(),
            old(self)@.phase is Selecting,
        ensures
            final(self)@.well_formed(),
            final(self)@ == old(self)@.without_account(error@),
            match refusal {
                Some(refusal) => old(self)@.selected == Set::<Seq<char>>::empty() && refusal.status
                    == 503 && refusal.message@ == "Token error: "@ + error@,
                None => old(self)@.selected != Set::<Seq<char>>::empty(),
            },
    {
        self.phase = Phase::Finished;
        if self.selected_account_ids.is_empty() {
            return Some(refuse_without_token(error));
        }
        let mut last_error = "Token error after pool attempts: ".to_owned();
        last_error.append(error);
        self.last_error = last_error;
        None
    }

    /// Notes the model that the account of the attempt is asked for.
    pub fn call_started(&mut self, mapped_model: String)
        requires
            old(self)@.well_formed(),
            old(self)@.phase is Attempting,
        ensures
            final(self)@.well_formed(),
            final(self)@ == old(self)@.calling(mapped_model@),
    {
        if let Phase::Attempting(account) = &self.phase {
            self.last_email = Some(account.email.clone());
        }
        self.last_mapped_model = Some(mapped_model);
    }

    /// Goes on where the upstream could not be reached; whether with the same account, else the
    /// request ends.
    pub fn transport_failed(&mut self, error: String) -> (retries: bool)
        requires
            old(self)@.well_formed(),
            old(self)@.phase is Attempting,
        ensures
            final(self)@.well_formed(),
            final(self)@ == old(self)@.after_transport(error@),
            retries == !old(self)@.transport_retried.contains(old(self)@.account().account_id),
    {
        let mut phase = Phase::Finished;
        std::mem::swap(&mut self.phase, &mut phase);
        let account = match phase {
            Phase::Attempting(account) => account,
            _ => return false,
        };
        self.last_error = error;
        if self.transport_retried_accounts.insert(account.account_id.clone()) {
            self.retry_account = Some(account);
            self.force_rotate = false;
            self.phase = Phase::Ready;
            return true;
        }
        let failure = PoolFailure::transport(self.last_error.as_str());
        proof {
            law_recording_keeps_form(old(self)@.pool, account.account_id@, failure@);
        }
        self.pool_attempts.record_failure(account.account_id.clone(), failure);
        self.excluded_account_ids.insert(account.account_id);
        false
    }

    /// Goes on when a stream began.
    pub fn stream_started(&mut self, start: StreamStart) -> (step: StreamStep)
        requires
            old(self)@.well_formed(),
            old(self)@.phase is Attempting,
        ensures
            final(self)@.well_formed(),
            step == StreamStep::Serve <==> stream_serves(start),
            step == StreamStep::Retry <==> !stream_serves(start) && !old(
                self,
            )@.stream_retried.contains(old(self)@.account().account_id),
            final(self)@ == if stream_serves(start) {
                old(self)@
            } else {
                old(self)@.after_stream(stream_error(old(self)@.last_error, start))
            },
    {
        match start {
            StreamStart::Chunk(bytes) => {
                if bytes > 0 {
                    return StreamStep::Serve;
                }
            },
            StreamStart::Error(error) => {
                let mut last_error = "Stream error: ".to_owned();
                last_error.append(error.as_str());
                self.last_error = last_error;
            },
            StreamStart::Ended => {
                self.last_error = "Empty response".to_owned();
            },
            StreamStart::TimedOut => {
                self.last_error = "First chunk timeout".to_owned();
            },
        }
        if self.last_error.as_str().is_empty() {
            self.last_error = "Empty or incomplete upstream stream".to_owned();
        }
        let mut phase = Phase::Finished;
        std::mem::swap(&mut self.phase, &mut phase);
        let account = match phase {
            Phase::Attempting(account) => account,
            _ => return StreamStep::Finish,
        };
        if self.stream_retried_accounts.insert(account.account_id.clone()) {
            self.retry_account = Some(account);
            self.force_rotate = false;
            self.phase = Phase::Ready;
            return StreamStep::Retry;
        }
        let failure = PoolFailure::transport(self.last_error.as_str());
        proof {
            law_recording_keeps_form(old(self)@.pool, account.account_id@, failure@);
        }
        self.pool_attempts.record_failure(account.account_id.clone(), failure);
        self.excluded_account_ids.insert(account.account_id);
        StreamStep::Finish
    }

    /// Goes on where the upstream replied with a failure. `retry_delay_ms` is the delay that it
    /// asks for in the body; `let_it_crash` is set for a client that wants to see failures.
    pub fn http_failed(
        &mut self,
        status_code: u16,
        error_text: &str,
        retry_after: Option<&str>,
        retry_delay_ms: Option<u64>,
        let_it_crash: bool,
    ) -> (step: HttpStep)
        requires
            old(self)@.well_formed(),
            old(self)@.phase is Attempting,
        ensures
            final(self)@.well_formed(),
            final(self)@ == old(self)@.after_http(
                status_code,
                error_text@,
                str_view(retry_after),
                retry_delay_ms,
                let_it_crash,
            ),
            step@ == old(self)@.http_step(
                status_code,
                error_text@,
                str_view(retry_after),
                retry_delay_ms,
                let_it_crash,
            ),
    {
        let mut phase = Phase::Finished;
        std::mem::swap(&mut self.phase, &mut phase);
        let account = match phase {
            Phase::Attempting(account) => account,
            _ => return HttpStep::Finish(Cooldown::NotNeeded),
        };
        self.last_error = describe_http_error(status_code, error_text);
        let attempt: usize = self.request_attempts - 1;
        let max_attempts: usize = self.max_request_attempts();
        if is_signature_error(status_code, error_text)
            && self.signature_retried_accounts.insert(account.account_id.clone()) {
            self.retry_account = Some(account);
            self.force_rotate = false;
            self.phase = Phase::Ready;
            let strategy = RetryStrategy::FixedDelay(Duration::from_millis(200));
            return HttpStep::RepairAndRetry(retry_delay(&strategy, attempt, max_attempts));
        }
        let strategy = determine_retry_strategy(status_code, error_text, false, retry_delay_ms);
        if let RetryStrategy::GraceRetry(_) = &strategy {
            if self.grace_retried_accounts.insert(account.account_id.clone()) {
                self.retry_account = Some(account);
                self.force_rotate = false;
                self.phase = Phase::Ready;
                return HttpStep::WaitAndRetry(retry_delay(&strategy, attempt, max_attempts));
            }
        }
        let failure = classify_pool_failure(status_code, error_text, retry_after);
        let cooldown = cooldown_for(&failure, error_text);
        proof {
            law_recording_keeps_form(old(self)@.pool, account.account_id@, failure@);
        }
        self.pool_attempts.record_failure(account.account_id.clone(), failure.clone());
        if failure.should_cooldown_account() {
            self.excluded_account_ids.insert(account.account_id);
        }
        let reply = gemini_error_response(
            status_code,
            error_text,
            Some(account.email.as_str()),
            match &self.last_mapped_model {
                Some(model) => Some(model.as_str()),
                None => None,
            },
            retry_after,
        );
        if let_it_crash && self.request_attempts > 1 {
            return HttpStep::Respond(cooldown, reply);
        }
        let remaining: usize = self.max_account_attempts().saturating_sub(
            self.selected_account_ids.len(),
        );
        match gemini_retry_action(&failure, remaining) {
            GeminiRetryAction::CooldownAndRotate => {
                self.force_rotate = true;
                self.phase = Phase::Ready;
                HttpStep::Rotate(cooldown)
            },
            GeminiRetryAction::ReturnProviderStatus => HttpStep::Respond(cooldown, reply),
            GeminiRetryAction::ReturnFailure => {
                if failure.should_cooldown_account() {
                    HttpStep::Finish(cooldown)
                } else {
                    HttpStep::Respond(cooldown, reply)
                }
            },
        }
    }

    /// The reply that the request ends with where no account gave a result.
    pub fn finish(&self) -> (reply: ErrorReply)
        ensures
            reply@ == self@.final_reply(),
    {
        let fallback = if self.last_error.as_str().is_empty() {
            "No eligible AGM account could complete the request"
        } else {
            self.last_error.as_str()
        };
        let message = match self.pool_attempts.last_failure() {
            Some(failure) => if failure.sanitized_error.as_str().is_empty() {
                fallback
            } else {
                failure.sanitized_error.as_str()
            },
            None => fallback,
        };
        gemini_error_response(
            self.pool_attempts.terminal_status(),
            message,
            match &self.last_email {
                Some(email) => Some(email.as_str()),
                None => None,
            },
            match &self.last_mapped_model {
                Some(model) => Some(model.as_str()),
                None => None,
            },
            self.pool_attempts.retry_after(),
        )
    }
}

/// How long, in seconds, an account that has to be verified is kept from being selected.
pub const VALIDATION_BLOCK_SECS: i64 = 600;

/// When an account that has to be verified may be selected again, where it is `now`; both in
/// seconds since the epoch.
pub fn validation_block_until(now: i64) -> (until: i64)
    requires
        now + VALIDATION_BLOCK_SECS <= i64::MAX,
    ensures
        until == now + VALIDATION_BLOCK_SECS,
{
    now + VALIDATION_BLOCK_SECS
}

/// The error that is kept of an HTTP failure.
fn describe_http_error(status_code: u16, error_text: &str) -> (error: String)
    ensures
        error@ == http_error(status_code, error_text@),
{
    let mut error = unread_error(status_code);
    error.append(": ");
    error.append(error_text);
    error
}

/// Whether the same account is asked once more with a repaired request.
fn is_signature_error(status_code: u16, error_text: &str) -> (found: bool)
    ensures
        found == is_signature_failure(status_code, error_text@),
{
    status_code == 400 && (text::contains(error_text, "Invalid `signature`") || text::contains(
        error_text,
        "thinking.signature",
    ) || text::contains(error_text, "Invalid signature") || text::contains(
        error_text,
        "Corrupted thought signature",
    ))
}

/// Whether a text in small letters asks for the account to be verified.
fn needs_validation(normalized: &str) -> (found: bool)
    ensures
        found == asks_for_validation(normalized@),
{
    text::contains(normalized, "validation_required") || text::contains(
        normalized,
        "verify your account",
    ) || text::contains(normalized, "validation_url") || text::contains(normalized, "validationurl")
}

/// Whether a text in small letters tells of a verification or a risk control in other words.
fn tells_of_validation(normalized: &str) -> (found: bool)
    ensures
        found == hints_at_validation(normalized@),
{
    text::contains(normalized, "account verification") || text::contains(
        normalized,
        "validation url",
    ) || text::contains(normalized, "appeal_url") || text::contains(
        normalized,
        "further action is required",
    ) || text::contains(normalized, "risk-control") || text::contains(normalized, "risk_control")
        || text::contains(normalized, "risk control")
}

/// Why an account has to rest after `failure`, which came with the body `error_text`.
fn cooldown_for(failure: &PoolFailure, error_text: &str) -> (cooldown: Cooldown)
    requires
        failure.scope == failure_scope(failure.status, error_text@),
        failure.sanitized_error@ == sanitized(error_text@),
    ensures
        cooldown@ == cooldown_after(failure.status, error_text@),
{
    match failure.scope {
        PoolFailureScope::AccountModel => Cooldown::RateLimited(failure.sanitized_error.clone()),
        PoolFailureScope::AccountAuth => {
            let normalized = text::to_ascii_lowercase(error_text);
            let requires_validation = needs_validation(normalized.as_str());
            if requires_validation {
                Cooldown::ValidationBlocked(failure.sanitized_error.clone())
            } else if failure.status == 403 {
                Cooldown::Forbidden(failure.sanitized_error.clone())
            } else if tells_of_validation(normalized.as_str()) {
                Cooldown::ValidationBlocked(failure.sanitized_error.clone())
            } else {
                Cooldown::NotNeeded
            }
        },
        _ => Cooldown::NotNeeded,
    }
}

} // verus!

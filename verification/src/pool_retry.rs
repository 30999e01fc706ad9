//! Classification of upstream failures and the record of which accounts of a pool a request has
//! tried.

use crate::accounts::AccountSet;
use crate::redaction::{
    has_body_label, holds_credential, holds_request_body, holds_secret, is_body_label, is_label_of,
    names_scheme, names_secret, redact, redacted, without_credentials, without_secrets,
};
use crate::text;
use crate::text::{is_white, lowered, occurs};
use std::time::Duration;
use vstd::prelude::*;
use vstd::string::*;

verus! {

/// The most accounts that one request tries.
pub const MAX_ACCOUNT_ATTEMPTS: usize = 10;

/// The most characters that a stored error has.
pub const MAX_SANITIZED_ERROR_CHARS: usize = 1024;

/// What a failure is the fault of.
#[derive(Debug, Clone, Copy, PartialEq, Eq, Structural)]
pub enum PoolFailureScope {
    AccountAuth,
    AccountModel,
    ProviderModel,
    Transport,
    Unknown,
}

/// What a failure asks for.
#[derive(Debug, PartialEq, Eq)]
pub enum RetryDisposition {
    RotateAccount,
    GraceRetry(Duration),
    Return,
}

impl Clone for RetryDisposition {
    fn clone(&self) -> (copy: Self)
        ensures
            copy == *self,
    {
        match self {
            RetryDisposition::RotateAccount => RetryDisposition::RotateAccount,
            RetryDisposition::GraceRetry(delay) => RetryDisposition::GraceRetry(*delay),
            RetryDisposition::Return => RetryDisposition::Return,
        }
    }
}

/// What the Gemini handler does after a failure.
#[derive(Debug, Clone, Copy, PartialEq, Eq, Structural)]
pub enum GeminiRetryAction {
    CooldownAndRotate,
    ReturnProviderStatus,
    ReturnFailure,
}

/// What the OpenAI-compatible handlers do after a failure.
#[derive(Debug, Clone, Copy, PartialEq, Eq, Structural)]
pub enum OpenAiRetryAction {
    CooldownAndRotate,
    ReturnProviderStatus,
    ReturnFailure,
}

/// One failed attempt.
#[derive(Debug, PartialEq, Eq)]
pub struct PoolFailure {
    pub status: u16,
    pub scope: PoolFailureScope,
    pub disposition: RetryDisposition,
    pub retry_after: Option<String>,
    pub sanitized_error: String,
}

/// What a [`PoolFailure`] says.
pub struct FailureView {
    pub status: u16,
    pub scope: PoolFailureScope,
    pub disposition: RetryDisposition,
    pub retry_after: Option<Seq<char>>,
    pub sanitized_error: Seq<char>,
}

impl View for PoolFailure {
    type V = FailureView;

    open spec fn view(&self) -> FailureView {
        FailureView {
            status: self.status,
            scope: self.scope,
            disposition: self.disposition,
            retry_after: string_view(self.retry_after),
            sanitized_error: self.sanitized_error@,
        }
    }
}

/// The characters of an optional string.
pub open spec fn string_view(s: Option<String>) -> Option<Seq<char>> {
    match s {
        Some(s) => Some(s@),
        None => None,
    }
}

/// The characters of an optional string slice.
pub open spec fn str_view(s: Option<&str>) -> Option<Seq<char>> {
    match s {
        Some(s) => Some(s@),
        None => None,
    }
}

/// `text`, cut and marked with an ellipsis where it is too long to be stored.
pub open spec fn limited_error(text: Seq<char>) -> Seq<char> {
    if text.len() <= MAX_SANITIZED_ERROR_CHARS {
        text
    } else {
        text.take(MAX_SANITIZED_ERROR_CHARS - 3) + "..."@
    }
}

/// What is stored of an error.
pub open spec fn sanitized(text: Seq<char>) -> Seq<char> {
    limited_error(redacted(text))
}

/// `stored` is what is stored of the error `text`. It is the same without the request body that
/// `text` may hold, it holds neither the credential nor the secret that `text` may hold, and an
/// error without any of these is kept.
pub open spec fn is_stored_as(text: Seq<char>, stored: Seq<char>) -> bool {
    &&& stored == sanitized(text)
    &&& forall|before: Seq<char>, label: Seq<char>, body: Seq<char>| #[trigger]
        holds_request_body(text, before, label, body) ==> stored == sanitized(before + label)
    &&& !has_body_label(text) ==> forall|
        before: Seq<char>,
        scheme: Seq<char>,
        gap: Seq<char>,
        token: Seq<char>,
        rest: Seq<char>,
    | #[trigger]
        holds_credential(text, before, scheme, gap, token, rest) ==> stored == limited_error(
            without_secrets(before + scheme + " [REDACTED]"@ + without_credentials(rest)),
        )
    &&& !has_body_label(text) && !names_scheme(text) ==> forall|
        before: Seq<char>,
        name: Seq<char>,
        sign: Seq<char>,
        secret: Seq<char>,
        rest: Seq<char>,
    | #[trigger]
        holds_secret(text, before, name, sign, secret, rest) ==> stored == limited_error(
            before + name + sign + "[REDACTED]"@ + without_secrets(rest),
        )
    &&& !has_body_label(text) && !names_scheme(text) && !names_secret(text) ==> stored
        == limited_error(text)
}

/// Cuts an error that is too long to be stored.
pub fn limit_error(text: &str) -> (out: String)
    ensures
        out@ == limited_error(text@),
{
    if text.unicode_len() <= MAX_SANITIZED_ERROR_CHARS {
        return text.to_owned();
    }
    let mut out = text.substring_char(0, MAX_SANITIZED_ERROR_CHARS - 3).to_owned();
    out.append("...");
    out
}

/// What is stored of an error: request bodies, credentials and secrets are redacted, and a long
/// text is cut.
pub fn sanitize_error(error_text: &str) -> (out: String)
    ensures
        out@ == sanitized(error_text@),
        is_stored_as(error_text@, out@),
{
    let redacted = redact(error_text);
    limit_error(redacted.as_str())
}

/// A stored error has at most as many characters as fit.
pub proof fn law_stored_error_is_short(text: Seq<char>)
    ensures
        sanitized(text).len() <= MAX_SANITIZED_ERROR_CHARS,
{
    reveal_strlit("...");
}

/// Nothing of a request body is stored: of two errors that differ only in the body behind a label,
/// the same is stored, and no more than fits.
pub proof fn law_request_body_is_not_stored(
    before: Seq<char>,
    label: Seq<char>,
    body: Seq<char>,
    other_body: Seq<char>,
    stored: Seq<char>,
    other_stored: Seq<char>,
)
    requires
        before.len() == 0 || is_white(before.last()),
        is_body_label(label),
        is_stored_as(before + label + body, stored),
        is_stored_as(before + label + other_body, other_stored),
    ensures
        stored == other_stored,
        stored.len() <= MAX_SANITIZED_ERROR_CHARS,
{
    assert(holds_request_body(before + label + body, before, label, body));
    assert(holds_request_body(before + label + other_body, before, label, other_body));
    law_stored_error_is_short(before + label);
}

/// Nothing of what follows "request body: " is stored.
pub proof fn law_plain_request_body_is_not_stored(
    before: Seq<char>,
    body: Seq<char>,
    other_body: Seq<char>,
    stored: Seq<char>,
    other_stored: Seq<char>,
)
    requires
        before.len() == 0 || is_white(before.last()),
        is_stored_as(before + "request body: "@ + body, stored),
        is_stored_as(before + "request body: "@ + other_body, other_stored),
    ensures
        stored == other_stored,
        stored.len() <= MAX_SANITIZED_ERROR_CHARS,
{
    reveal_strlit("request body: ");
    reveal_strlit("request");
    reveal_strlit("body");
    reveal_strlit(":");
    let blank = seq![' '];
    let none = Seq::<char>::empty();
    assert(lowered("request body: "@) =~= "request"@ + blank + "body"@ + none + ":"@ + blank);
    assert(is_label_of("request body: "@, blank, "body"@, none, ":"@, blank));
    law_request_body_is_not_stored(
        before,
        "request body: "@,
        body,
        other_body,
        stored,
        other_stored,
    );
}

/// No credential is stored: of two errors that differ only in the token behind a scheme, the same is
/// stored.
pub proof fn law_credential_is_not_stored(
    before: Seq<char>,
    scheme: Seq<char>,
    gap: Seq<char>,
    token: Seq<char>,
    other_token: Seq<char>,
    rest: Seq<char>,
    stored: Seq<char>,
    other_stored: Seq<char>,
)
    requires
        ({
            let text = before + scheme + gap + token + rest;
            &&& holds_credential(text, before, scheme, gap, token, rest)
            &&& !has_body_label(text)
            &&& is_stored_as(text, stored)
        }),
        ({
            let text = before + scheme + gap + other_token + rest;
            &&& holds_credential(text, before, scheme, gap, other_token, rest)
            &&& !has_body_label(text)
            &&& is_stored_as(text, other_stored)
        }),
    ensures
        stored == other_stored,
{
}

/// No secret is stored: of two errors that differ only in what is assigned to the name of a secret,
/// the same is stored.
pub proof fn law_secret_is_not_stored(
    before: Seq<char>,
    name: Seq<char>,
    sign: Seq<char>,
    secret: Seq<char>,
    other_secret: Seq<char>,
    rest: Seq<char>,
    stored: Seq<char>,
    other_stored: Seq<char>,
)
    requires
        ({
            let text = before + name + sign + secret + rest;
            &&& holds_secret(text, before, name, sign, secret, rest)
            &&& !has_body_label(text)
            &&& !names_scheme(text)
            &&& is_stored_as(text, stored)
        }),
        ({
            let text = before + name + sign + other_secret + rest;
            &&& holds_secret(text, before, name, sign, other_secret, rest)
            &&& !has_body_label(text)
            &&& !names_scheme(text)
            &&& is_stored_as(text, other_stored)
        }),
    ensures
        stored == other_stored,
{
}

impl Clone for PoolFailure {
    fn clone(&self) -> (copy: Self)
        ensures
            copy@ == self@,
    {
        PoolFailure {
            status: self.status,
            scope: self.scope,
            disposition: self.disposition.clone(),
            retry_after: match &self.retry_after {
                Some(value) => Some(value.clone()),
                None => None,
            },
            sanitized_error: self.sanitized_error.clone(),
        }
    }
}

/// A failure of one account, after which that account rests.
pub open spec fn is_account_scope(scope: PoolFailureScope) -> bool {
    scope == PoolFailureScope::AccountAuth || scope == PoolFailureScope::AccountModel
}

/// A failure that came before an HTTP response did.
pub open spec fn transport_failure(text: Seq<char>) -> FailureView {
    FailureView {
        status: 0,
        scope: PoolFailureScope::Transport,
        disposition: RetryDisposition::Return,
        retry_after: None,
        sanitized_error: sanitized(text),
    }
}

impl PoolFailure {
    /// A failure that came before an HTTP response did.
    pub fn transport(error_text: &str) -> (failure: Self)
        ensures
            failure@ == transport_failure(error_text@),
            is_stored_as(error_text@, failure.sanitized_error@),
    {
        PoolFailure {
            status: 0,
            scope: PoolFailureScope::Transport,
            disposition: RetryDisposition::Return,
            retry_after: None,
            sanitized_error: sanitize_error(error_text),
        }
    }

    /// Whether the account that failed has to rest.
    pub fn should_cooldown_account(&self) -> (rests: bool)
        ensures
            rests == is_account_scope(self.scope),
    {
        match self.scope {
            PoolFailureScope::AccountAuth | PoolFailureScope::AccountModel => true,
            _ => false,
        }
    }
}

/// A text in small letters that speaks of an account that has to be verified or has no
/// permission.
pub open spec fn mentions_account_auth(text: Seq<char>) -> bool {
    ||| occurs(text, "verify your account"@)
    ||| occurs(text, "account verification"@)
    ||| occurs(text, "validation_required"@)
    ||| occurs(text, "validation_url"@)
    ||| occurs(text, "validationurl"@)
    ||| occurs(text, "validation url"@)
    ||| occurs(text, "appeal_url"@)
    ||| occurs(text, "further action is required"@)
    ||| occurs(text, "risk-control"@)
    ||| occurs(text, "risk_control"@)
    ||| occurs(text, "risk control"@)
    ||| occurs(text, "permission denied"@)
    ||| occurs(text, "insufficient permissions"@)
    ||| occurs(text, "account suspended"@)
    ||| occurs(text, "account disabled"@)
}

/// A text in small letters that speaks of a quota or a rate limit.
pub open spec fn mentions_account_limit(text: Seq<char>) -> bool {
    ||| occurs(text, "quota"@)
    ||| occurs(text, "rate limit"@)
    ||| occurs(text, "rate_limit"@)
    ||| occurs(text, "resource exhausted"@)
    ||| occurs(text, "resource_exhausted"@)
    ||| occurs(text, "capacity on this model"@)
    ||| occurs(text, "account capacity"@)
    ||| occurs(text, "reset after"@)
    ||| occurs(text, "retry after"@)
}

/// A text in small letters that speaks of a provider without capacity for the model.
pub open spec fn mentions_provider_capacity(text: Seq<char>) -> bool {
    ||| occurs(text, "no capacity available for model"@)
    ||| occurs(text, "model_capacity_exhausted"@)
}

/// Whether a text in small letters speaks of an account that has to be verified or has no
/// permission.
pub fn is_account_auth_failure(normalized: &str) -> (found: bool)
    ensures
        found == mentions_account_auth(normalized@),
{
    text::contains(normalized, "verify your account") || text::contains(
        normalized,
        "account verification",
    ) || text::contains(normalized, "validation_required") || text::contains(
        normalized,
        "validation_url",
    ) || text::contains(normalized, "validationurl") || text::contains(normalized, "validation url")
        || text::contains(normalized, "appeal_url") || text::contains(
        normalized,
        "further action is required",
    ) || text::contains(normalized, "risk-control") || text::contains(normalized, "risk_control")
        || text::contains(normalized, "risk control") || text::contains(
        normalized,
        "permission denied",
    ) || text::contains(normalized, "insufficient permissions") || text::contains(
        normalized,
        "account suspended",
    ) || text::contains(normalized, "account disabled")
}

/// Whether a text in small letters speaks of a quota or a rate limit.
pub fn is_account_model_failure(normalized: &str) -> (found: bool)
    ensures
        found == mentions_account_limit(normalized@),
{
    text::contains(normalized, "quota") || text::contains(normalized, "rate limit")
        || text::contains(normalized, "rate_limit") || text::contains(
        normalized,
        "resource exhausted",
    ) || text::contains(normalized, "resource_exhausted") || text::contains(
        normalized,
        "capacity on this model",
    ) || text::contains(normalized, "account capacity") || text::contains(normalized, "reset after")
        || text::contains(normalized, "retry after")
}

/// Whether a text in small letters speaks of a provider without capacity for the model.
pub fn is_provider_model_failure(normalized: &str) -> (found: bool)
    ensures
        found == mentions_provider_capacity(normalized@),
{
    text::contains(normalized, "no capacity available for model") || text::contains(
        normalized,
        "model_capacity_exhausted",
    )
}

/// What an HTTP failure with this status and body is the fault of.
pub open spec fn failure_scope(status: u16, text: Seq<char>) -> PoolFailureScope {
    if status == 401 || status == 403 || mentions_account_auth(lowered(text)) {
        PoolFailureScope::AccountAuth
    } else if status == 429 && mentions_account_limit(lowered(text)) {
        PoolFailureScope::AccountModel
    } else if status == 503 && mentions_provider_capacity(lowered(text)) {
        PoolFailureScope::ProviderModel
    } else {
        PoolFailureScope::Unknown
    }
}

/// What an HTTP failure of this scope asks for.
pub open spec fn scope_disposition(scope: PoolFailureScope) -> RetryDisposition {
    if is_account_scope(scope) {
        RetryDisposition::RotateAccount
    } else {
        RetryDisposition::Return
    }
}

/// The record of an HTTP failure.
pub open spec fn classified(
    status: u16,
    text: Seq<char>,
    retry_after: Option<Seq<char>>,
) -> FailureView {
    FailureView {
        status,
        scope: failure_scope(status, text),
        disposition: scope_disposition(failure_scope(status, text)),
        retry_after,
        sanitized_error: sanitized(text),
    }
}

/// Classifies an HTTP failure by its status and body.
pub fn classify_pool_failure(
    status: u16,
    error_text: &str,
    retry_after: Option<&str>,
) -> (failure: PoolFailure)
    ensures
        failure@ == classified(status, error_text@, str_view(retry_after)),
        is_stored_as(error_text@, failure.sanitized_error@),
{
    let normalized = text::to_ascii_lowercase(error_text);
    let scope = if status == 401 || status == 403 || is_account_auth_failure(normalized.as_str()) {
        PoolFailureScope::AccountAuth
    } else if status == 429 && is_account_model_failure(normalized.as_str()) {
        PoolFailureScope::AccountModel
    } else if status == 503 && is_provider_model_failure(normalized.as_str()) {
        PoolFailureScope::ProviderModel
    } else {
        PoolFailureScope::Unknown
    };
    let disposition = match scope {
        PoolFailureScope::AccountAuth | PoolFailureScope::AccountModel => {
            RetryDisposition::RotateAccount
        },
        PoolFailureScope::ProviderModel | PoolFailureScope::Transport | PoolFailureScope::Unknown => {
            RetryDisposition::Return
        },
    };
    PoolFailure {
        status,
        scope,
        disposition,
        retry_after: match retry_after {
            Some(value) => Some(value.to_owned()),
            None => None,
        },
        sanitized_error: sanitize_error(error_text),
    }
}

/// What the Gemini handler does after a failure of this scope.
pub open spec fn gemini_action(scope: PoolFailureScope, remaining: nat) -> GeminiRetryAction {
    if is_account_scope(scope) && remaining > 0 {
        GeminiRetryAction::CooldownAndRotate
    } else if scope == PoolFailureScope::ProviderModel {
        GeminiRetryAction::ReturnProviderStatus
    } else {
        GeminiRetryAction::ReturnFailure
    }
}

/// What the OpenAI-compatible handlers do after a failure of this scope.
pub open spec fn openai_action(scope: PoolFailureScope, remaining: nat) -> OpenAiRetryAction {
    if is_account_scope(scope) && remaining > 0 {
        OpenAiRetryAction::CooldownAndRotate
    } else if scope == PoolFailureScope::ProviderModel {
        OpenAiRetryAction::ReturnProviderStatus
    } else {
        OpenAiRetryAction::ReturnFailure
    }
}

/// What the Gemini handler does after `failure`.
pub fn gemini_retry_action(
    failure: &PoolFailure,
    remaining_account_attempts: usize,
) -> (action: GeminiRetryAction)
    ensures
        action == gemini_action(failure.scope, remaining_account_attempts as nat),
{
    match failure.scope {
        PoolFailureScope::AccountAuth | PoolFailureScope::AccountModel => {
            if remaining_account_attempts > 0 {
                GeminiRetryAction::CooldownAndRotate
            } else {
                GeminiRetryAction::ReturnFailure
            }
        },
        PoolFailureScope::ProviderModel => GeminiRetryAction::ReturnProviderStatus,
        PoolFailureScope::Transport | PoolFailureScope::Unknown => GeminiRetryAction::ReturnFailure,
    }
}

/// What the OpenAI-compatible handlers do after `failure`.
pub fn openai_retry_action(
    failure: &PoolFailure,
    remaining_account_attempts: usize,
) -> (action: OpenAiRetryAction)
    ensures
        action == openai_action(failure.scope, remaining_account_attempts as nat),
{
    match failure.scope {
        PoolFailureScope::AccountAuth | PoolFailureScope::AccountModel => {
            if remaining_account_attempts > 0 {
                OpenAiRetryAction::CooldownAndRotate
            } else {
                OpenAiRetryAction::ReturnFailure
            }
        },
        PoolFailureScope::ProviderModel => OpenAiRetryAction::ReturnProviderStatus,
        PoolFailureScope::Transport | PoolFailureScope::Unknown => OpenAiRetryAction::ReturnFailure,
    }
}

/// What a [`PoolAttemptState`] says.
#[verifier::ext_equal]
pub struct PoolView {
    /// The accounts that a failure was recorded for.
    pub attempted: Set<Seq<char>>,
    /// Those of them that failed for a reason of their own.
    pub limited: Set<Seq<char>>,
    /// Those of them that ran into a rate or quota limit.
    pub rate_limited: Set<Seq<char>>,
    /// The accounts that could serve the request.
    pub pool_size: nat,
    /// The failure that the request ends with.
    pub last_failure: Option<FailureView>,
}

impl PoolView {
    /// The record before any failure.
    pub open spec fn start(pool_size: nat) -> PoolView {
        PoolView {
            attempted: Set::empty(),
            limited: Set::empty(),
            rate_limited: Set::empty(),
            pool_size,
            last_failure: None,
        }
    }

    /// What holds of every record: the accounts that failed for a reason of their own are among
    /// those attempted, those that ran into a limit among them in turn, and there is a last failure
    /// as soon as there is one at all.
    pub open spec fn well_formed(self) -> bool {
        &&& self.attempted.finite()
        &&& self.limited.subset_of(self.attempted)
        &&& self.rate_limited.subset_of(self.limited)
        &&& self.last_failure is None <==> self.attempted == Set::<Seq<char>>::empty()
    }

    /// The last failure came with an HTTP response.
    pub open spec fn has_http_failure(self) -> bool {
        self.last_failure matches Some(last) && last.scope != PoolFailureScope::Transport
    }

    /// The record after one more failure. A transport failure does not displace an HTTP failure.
    pub open spec fn recorded(self, account_id: Seq<char>, failure: FailureView) -> PoolView {
        PoolView {
            attempted: self.attempted.insert(account_id),
            limited: if is_account_scope(failure.scope) {
                self.limited.insert(account_id)
            } else {
                self.limited
            },
            rate_limited: if failure.scope == PoolFailureScope::AccountModel {
                self.rate_limited.insert(account_id)
            } else {
                self.rate_limited
            },
            last_failure: if failure.scope != PoolFailureScope::Transport
                || !self.has_http_failure() {
                Some(failure)
            } else {
                self.last_failure
            },
            ..self
        }
    }

    /// Every account attempted failed for a reason of its own.
    pub open spec fn all_limited(self) -> bool {
        self.limited == self.attempted
    }

    /// Every account of a pool that one request can go through failed for a reason of its own.
    pub open spec fn exhausted(self) -> bool {
        &&& 0 < self.pool_size <= MAX_ACCOUNT_ATTEMPTS
        &&& self.attempted.len() >= self.pool_size
        &&& self.all_limited()
    }

    /// There are accounts attempted, and every one of them ran into a rate or quota limit.
    pub open spec fn all_rate_limited(self) -> bool {
        self.attempted != Set::<Seq<char>>::empty() && self.rate_limited == self.attempted
    }

    /// The status that the request ends with: 429 where rate or quota limits made every account of
    /// the pool unavailable, 503 where they did so of all accounts attempted, else that of the last
    /// HTTP failure.
    pub open spec fn terminal_status(self) -> u16 {
        if self.exhausted() && self.all_rate_limited() {
            429
        } else if self.all_rate_limited() {
            503
        } else if self.has_http_failure() && self.last_failure->0.status != 0 {
            self.last_failure->0.status
        } else {
            502
        }
    }

    /// The `Retry-After` that the request ends with.
    pub open spec fn retry_after(self) -> Option<Seq<char>> {
        match self.last_failure {
            Some(failure) => failure.retry_after,
            None => None,
        }
    }
}

/// The most accounts that a request tries in a pool of this size.
pub open spec fn account_attempts(pool_size: nat) -> nat {
    if pool_size < MAX_ACCOUNT_ATTEMPTS {
        pool_size
    } else {
        MAX_ACCOUNT_ATTEMPTS as nat
    }
}

/// A recorded failure leaves a well-formed record.
pub proof fn law_recording_keeps_form(view: PoolView, account_id: Seq<char>, failure: FailureView)
    requires
        view.well_formed(),
    ensures
        view.recorded(account_id, failure).well_formed(),
{
    assert(view.recorded(account_id, failure).attempted.contains(account_id));
}

/// Which accounts a request has tried, and how they failed.
#[derive(Debug)]
pub struct PoolAttemptState {
    attempted_account_ids: AccountSet,
    account_limit_account_ids: AccountSet,
    rate_limited_account_ids: AccountSet,
    pool_size: usize,
    max_account_attempts: usize,
    last_failure: Option<PoolFailure>,
}

impl View for PoolAttemptState {
    type V = PoolView;

    closed spec fn view(&self) -> PoolView {
        PoolView {
            attempted: self.attempted_account_ids@,
            limited: self.account_limit_account_ids@,
            rate_limited: self.rate_limited_account_ids@,
            pool_size: self.pool_size as nat,
            last_failure: match self.last_failure {
                Some(failure) => Some(failure@),
                None => None,
            },
        }
    }
}

impl PoolAttemptState {
    #[verifier::type_invariant]
    spec fn consistent(self) -> bool {
        &&& self@.well_formed()
        &&& self.max_account_attempts == account_attempts(self.pool_size as nat)
    }

    /// The record before any failure.
    pub fn new(pool_size: usize) -> (state: Self)
        ensures
            state@ == PoolView::start(pool_size as nat),
    {
        let state = PoolAttemptState {
            attempted_account_ids: AccountSet::new(),
            account_limit_account_ids: AccountSet::new(),
            rate_limited_account_ids: AccountSet::new(),
            pool_size,
            max_account_attempts: if pool_size < MAX_ACCOUNT_ATTEMPTS {
                pool_size
            } else {
                MAX_ACCOUNT_ATTEMPTS
            },
            last_failure: None,
        };
        state
    }

    /// Records a failure of an account.
    pub fn record_failure(&mut self, account_id: String, failure: PoolFailure)
        ensures
            final(self)@ == old(self)@.recorded(account_id@, failure@),
    {
        proof {
            use_type_invariant(&*self);
        }
        let mut state = PoolAttemptState::new(0);
        std::mem::swap(self, &mut state);
        let PoolAttemptState {
            attempted_account_ids,
            account_limit_account_ids,
            rate_limited_account_ids,
            pool_size,
            max_account_attempts,
            last_failure,
        } = state;
        let mut attempted_account_ids = attempted_account_ids;
        let mut account_limit_account_ids = account_limit_account_ids;
        let mut rate_limited_account_ids = rate_limited_account_ids;
        attempted_account_ids.insert(account_id.clone());
        if failure.scope == PoolFailureScope::AccountModel {
            rate_limited_account_ids.insert(account_id.clone());
        }
        if failure.should_cooldown_account() {
            account_limit_account_ids.insert(account_id);
        }
        let has_meaningful_http_failure = match &last_failure {
            Some(last) => last.scope != PoolFailureScope::Transport,
            None => false,
        };
        let last_failure = if failure.scope != PoolFailureScope::Transport
            || !has_meaningful_http_failure {
            Some(failure)
        } else {
            last_failure
        };
        proof {
            law_recording_keeps_form(old(self)@, account_id@, failure@);
        }
        *self = PoolAttemptState {
            attempted_account_ids,
            account_limit_account_ids,
            rate_limited_account_ids,
            pool_size,
            max_account_attempts,
            last_failure,
        };
    }

    /// The accounts that a failure was recorded for.
    pub fn attempted_account_ids(&self) -> (ids: &AccountSet)
        ensures
            ids@ == self@.attempted,
            self@.well_formed(),
    {
        proof {
            use_type_invariant(self);
        }
        &self.attempted_account_ids
    }

    /// The most accounts that the request tries.
    pub fn max_account_attempts(&self) -> (n: usize)
        ensures
            n == account_attempts(self@.pool_size),
    {
        proof {
            use_type_invariant(self);
        }
        self.max_account_attempts
    }

    /// The failure that the request ends with.
    pub fn last_failure(&self) -> (failure: Option<&PoolFailure>)
        ensures
            match failure {
                Some(failure) => self@.last_failure == Some(failure@),
                None => self@.last_failure is None,
            },
    {
        self.last_failure.as_ref()
    }

    /// The number of accounts that failed for a reason of their own.
    pub fn account_limit_failure_count(&self) -> (n: usize)
        ensures
            n == self@.limited.len(),
            self@.well_formed(),
    {
        proof {
            use_type_invariant(self);
        }
        self.account_limit_account_ids.len()
    }

    /// Whether every account attempted failed for a reason of its own.
    fn all_limited(&self) -> (all: bool)
        ensures
            all == self@.all_limited(),
    {
        proof {
            use_type_invariant(self);
            let view = self@;
            if view.limited.len() == view.attempted.len() {
                vstd::set_lib::lemma_subset_equality(view.limited, view.attempted);
            }
        }
        self.account_limit_account_ids.len() == self.attempted_account_ids.len()
    }

    /// Whether there are accounts attempted, and every one of them ran into a rate or quota limit.
    fn all_rate_limited(&self) -> (all: bool)
        ensures
            all == self@.all_rate_limited(),
    {
        proof {
            use_type_invariant(self);
            let view = self@;
            if view.rate_limited.len() == view.attempted.len() {
                vstd::set_lib::lemma_subset_equality(view.rate_limited, view.attempted);
            }
        }
        !self.attempted_account_ids.is_empty() && self.rate_limited_account_ids.len()
            == self.attempted_account_ids.len()
    }

    /// Whether every account of the pool failed for a reason of its own.
    pub fn whole_pool_exhausted(&self) -> (exhausted: bool)
        ensures
            exhausted == self@.exhausted(),
            self@.well_formed(),
    {
        proof {
            use_type_invariant(self);
        }
        self.pool_size > 0 && self.pool_size <= MAX_ACCOUNT_ATTEMPTS
            && self.attempted_account_ids.len() >= self.pool_size && self.all_limited()
    }

    /// The status that the request ends with.
    pub fn terminal_status(&self) -> (status: u16)
        ensures
            status == self@.terminal_status(),
            self@.well_formed(),
    {
        proof {
            use_type_invariant(self);
        }
        if self.all_rate_limited() {
            return if self.whole_pool_exhausted() {
                429
            } else {
                503
            };
        }
        match &self.last_failure {
            Some(failure) if failure.scope != PoolFailureScope::Transport && failure.status != 0 => {
                failure.status
            },
            _ => 502,
        }
    }

    /// The `Retry-After` that the request ends with.
    pub fn retry_after(&self) -> (value: Option<&str>)
        ensures
            str_view(value) == self@.retry_after(),
    {
        match &self.last_failure {
            Some(failure) => match &failure.retry_after {
                Some(value) => Some(value.as_str()),
                None => None,
            },
            None => None,
        }
    }
}

impl Clone for PoolAttemptState {
    fn clone(&self) -> (copy: Self)
        ensures
            copy@ == self@,
    {
        proof {
            use_type_invariant(self);
        }
        PoolAttemptState {
            attempted_account_ids: self.attempted_account_ids.clone(),
            account_limit_account_ids: self.account_limit_account_ids.clone(),
            rate_limited_account_ids: self.rate_limited_account_ids.clone(),
            pool_size: self.pool_size,
            max_account_attempts: self.max_account_attempts,
            last_failure: match &self.last_failure {
                Some(failure) => Some(failure.clone()),
                None => None,
            },
        }
    }
}

} // verus!

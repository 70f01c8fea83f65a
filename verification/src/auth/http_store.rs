//! Decisions of a credential store behind an HTTP webhook: when to ask, how
//! often, what an answer means, and when to stop asking for a while.

use vstd::prelude::*;

use super::digest::Algorithm;
use super::{credentials_opt, Credentials, CredentialsView};
use crate::clock::unix_now_secs;
use crate::text;
use crate::txn::timers::Millis;

verus! {

/// What to do while the circuit breaker is open.
#[derive(Copy, Clone, Debug, PartialEq, Eq, Structural)]
pub enum FailureMode {
    /// Every lookup fails.
    FailClosed,
    /// Every lookup finds nothing.
    FailOpen,
}

/// Settings of the store.
#[derive(Clone, Debug)]
pub struct HttpAuthConfig {
    /// URL that is posted to.
    pub endpoint: String,
    /// Timeout of one request.
    pub timeout: Millis,
    /// How often a failed request is tried again.
    pub retries: u8,
    /// Bearer token that goes with every request.
    pub bearer_token: Option<String>,
    /// Consecutive failures that open the breaker.
    pub breaker_threshold: u32,
    /// How long the breaker stays open.
    pub breaker_cooldown: Millis,
    /// What to do while it is open.
    pub failure_mode: FailureMode,
}

impl Default for HttpAuthConfig {
    fn default() -> (r: Self)
        ensures
            r.endpoint@ == Seq::<char>::empty(),
            r.timeout == 2_000,
            r.retries == 1,
            r.bearer_token is None,
            r.breaker_threshold == 5,
            r.breaker_cooldown == 30_000,
            r.failure_mode == FailureMode::FailClosed,
    {
        HttpAuthConfig {
            endpoint: String::new(),
            timeout: 2_000,
            retries: 1,
            bearer_token: None,
            breaker_threshold: 5,
            breaker_cooldown: 30_000,
            failure_mode: FailureMode::FailClosed,
        }
    }
}

/// Why a lookup failed.
#[derive(Debug)]
pub enum HttpAuthError {
    /// The request did not get through.
    Transport(String),
    /// The webhook answered with another status than 2xx.
    HttpStatus {
        /// That status.
        code: u16,
    },
    /// The answer has not the agreed form.
    Malformed(String),
    /// The breaker is open; nothing was sent.
    BreakerOpen {
        /// Seconds until the next attempt.
        cooldown_secs: u64,
    },
}

/// The message of an error.
pub open spec fn http_error_text(e: HttpAuthError) -> Seq<char> {
    match e {
        HttpAuthError::Transport(m) => "transport: "@ + m@,
        HttpAuthError::HttpStatus { code } => "unexpected HTTP "@ + text::decimal(code as nat),
        HttpAuthError::Malformed(m) => "malformed response: "@ + m@,
        HttpAuthError::BreakerOpen { cooldown_secs } => "circuit breaker open (cooldown "@
            + text::decimal(cooldown_secs as nat) + "s)"@,
    }
}

impl HttpAuthError {
    /// The message of the error.
    pub fn message(&self) -> (r: String)
        ensures
            r@ == http_error_text(*self),
    {
        match self {
            HttpAuthError::Transport(m) => {
                let mut s: String = "transport: ".to_owned();
                s.append(m);
                s
            },
            HttpAuthError::HttpStatus { code } => {
                let mut s: String = "unexpected HTTP ".to_owned();
                s.append(&text::decimal_string(*code as u64));
                s
            },
            HttpAuthError::Malformed(m) => {
                let mut s: String = "malformed response: ".to_owned();
                s.append(m);
                s
            },
            HttpAuthError::BreakerOpen { cooldown_secs } => {
                let mut s: String = "circuit breaker open (cooldown ".to_owned();
                s.append(&text::decimal_string(*cooldown_secs));
                s.append("s)");
                s
            },
        }
    }
}

// ---------------------------------------------------------------------
// Circuit breaker
// ---------------------------------------------------------------------

/// A circuit breaker: it opens after a number of consecutive failures and lets
/// the next attempt through once its cooldown has passed.
#[derive(Debug)]
pub struct Breaker {
    consecutive_failures: u32,
    tripped_at_unix: u64,
    threshold: u32,
    cooldown: Millis,
}

/// Model of a [`Breaker`].
#[verifier::ext_equal]
pub struct BreakerView {
    /// Failures since the last success.
    pub failures: u32,
    /// Unix time at which it opened, 0 while it is closed.
    pub tripped_at: u64,
    /// Failures that open it.
    pub threshold: u32,
    /// How long it stays open.
    pub cooldown: Millis,
}

impl View for Breaker {
    type V = BreakerView;

    closed spec fn view(&self) -> BreakerView {
        BreakerView {
            failures: self.consecutive_failures,
            tripped_at: self.tripped_at_unix,
            threshold: self.threshold,
            cooldown: self.cooldown,
        }
    }
}

/// Seconds for which the breaker stays open at `now`; `None` when an attempt
/// may be made.
pub open spec fn gate_of(b: BreakerView, now: u64) -> Option<u64> {
    let elapsed = if now >= b.tripped_at {
        now - b.tripped_at
    } else {
        0
    };
    if b.tripped_at == 0 || elapsed >= b.cooldown / 1000 {
        None
    } else {
        Some((b.cooldown / 1000 - elapsed) as u64)
    }
}

/// The breaker after a success.
pub open spec fn after_success(b: BreakerView) -> BreakerView {
    BreakerView { failures: 0, tripped_at: 0, ..b }
}

/// The breaker after a failure at `now`.
pub open spec fn after_failure(b: BreakerView, now: u64) -> BreakerView {
    let n = if b.failures < u32::MAX {
        (b.failures + 1) as u32
    } else {
        u32::MAX
    };
    if n >= b.threshold {
        BreakerView { failures: n, tripped_at: now, ..b }
    } else {
        BreakerView { failures: n, ..b }
    }
}

impl Breaker {
    /// A closed breaker.
    pub fn new(threshold: u32, cooldown: Millis) -> (r: Self)
        ensures
            r@ == (BreakerView { failures: 0, tripped_at: 0, threshold, cooldown }),
    {
        Breaker { consecutive_failures: 0, tripped_at_unix: 0, threshold, cooldown }
    }

    /// Seconds for which the breaker stays open at `now`.
    pub fn gate_at(&self, now: u64) -> (r: Option<u64>)
        ensures
            r == gate_of(self@, now),
    {
        if self.tripped_at_unix == 0 {
            return None;
        }
        let elapsed: u64 = if now >= self.tripped_at_unix {
            now - self.tripped_at_unix
        } else {
            0
        };
        let cooldown: u64 = self.cooldown / 1000;
        if elapsed >= cooldown {
            None
        } else {
            Some(cooldown - elapsed)
        }
    }

    /// Seconds for which the breaker stays open.
    pub fn gate(&self) -> (r: Option<u64>)
        ensures
            exists|now: u64| r == #[trigger] gate_of(self@, now),
    {
        self.gate_at(unix_now())
    }

    /// An attempt succeeded.
    pub fn record_success(&mut self)
        ensures
            final(self)@ == after_success(old(self)@),
    {
        self.consecutive_failures = 0;
        self.tripped_at_unix = 0;
    }

    /// An attempt failed at `now`.
    pub fn record_failure_at(&mut self, now: u64)
        ensures
            final(self)@ == after_failure(old(self)@, now),
    {
        self.consecutive_failures = self.consecutive_failures.saturating_add(1);
        if self.consecutive_failures >= self.threshold {
            self.tripped_at_unix = now;
        }
    }

    /// An attempt failed.
    pub fn record_failure(&mut self)
        ensures
            exists|now: u64| final(self)@ == #[trigger] after_failure(old(self)@, now),
    {
        self.record_failure_at(unix_now());
    }

    /// Failures since the last success.
    pub fn consecutive_failures(&self) -> (r: u32)
        ensures
            r == self@.failures,
    {
        self.consecutive_failures
    }
}

/// Unix time in seconds.
pub fn unix_now() -> (r: u64)
    ensures
        r <= i64::MAX,
{
    let secs = unix_now_secs();
    secs as u64
}

// ---------------------------------------------------------------------
// The webhook
// ---------------------------------------------------------------------

/// The name of an algorithm in a request.
pub open spec fn wire_token(alg: Algorithm) -> Seq<char> {
    match alg {
        Algorithm::Md5 => "md5"@,
        Algorithm::Sha256 => "sha-256"@,
    }
}

/// The name of an algorithm in a request.
pub fn algorithm_wire_token(alg: Algorithm) -> (r: &'static str)
    ensures
        r@ == wire_token(alg),
{
    match alg {
        Algorithm::Md5 => "md5",
        Algorithm::Sha256 => "sha-256",
    }
}

/// What came back from one request.
#[derive(Debug)]
pub enum WebhookReply {
    /// The request did not get through.
    Failed(String),
    /// An answer with this status, whose body could not be read.
    Unreadable {
        /// Status code.
        code: u16,
        /// What is wrong with the body.
        why: String,
    },
    /// An answer with this status.
    Answer {
        /// Status code.
        code: u16,
        /// `status` in the body.
        status: String,
        /// `ha1` in the body.
        ha1: Option<String>,
    },
}

/// The outcome of a lookup.
#[verifier::ext_equal]
pub enum LookupView {
    /// The account, if there is one.
    Found(Option<CredentialsView>),
    /// It failed, with this message.
    Failed(Seq<char>),
}

/// The model of a lookup's result.
pub open spec fn lookup_view(r: Result<Option<Credentials>, HttpAuthError>) -> LookupView {
    match r {
        Ok(c) => LookupView::Found(credentials_opt(c)),
        Err(e) => LookupView::Failed(http_error_text(e)),
    }
}

/// What a reply means for the account `username` of `realm`. Any HTTP status
/// but 200 is a failure of the service.
pub open spec fn meaning(reply: WebhookReply, realm: Seq<char>, username: Seq<char>) -> LookupView {
    match reply {
        WebhookReply::Failed(m) => LookupView::Failed("transport: "@ + m@),
        WebhookReply::Unreadable { code, why } => if code == 200 {
            LookupView::Failed("malformed response: "@ + why@)
        } else {
            LookupView::Failed("unexpected HTTP "@ + text::decimal(code as nat))
        },
        WebhookReply::Answer { code, status, ha1 } => if code != 200 {
            LookupView::Failed("unexpected HTTP "@ + text::decimal(code as nat))
        } else if status@ == "accept"@ {
            match ha1 {
                Some(h) => LookupView::Found(
                    Some(
                        CredentialsView {
                            username,
                            realm,
                            password: Seq::empty(),
                            ha1: Some(h@),
                        },
                    ),
                ),
                None => LookupView::Failed(
                    "malformed response: "@ + "accept response missing `ha1`"@,
                ),
            }
        } else if status@ == "deny"@ {
            LookupView::Found(None)
        } else {
            LookupView::Failed(
                "malformed response: "@ + ("unknown status `"@ + status@
                    + "` (expected accept|deny)"@),
            )
        },
    }
}

/// Reads a reply about the account `username` of `realm`.
pub fn interpret(reply: WebhookReply, realm: &str, username: &str) -> (r: Result<
    Option<Credentials>,
    HttpAuthError,
>)
    ensures
        lookup_view(r) == meaning(reply, realm@, username@),
{
    match reply {
        WebhookReply::Failed(m) => Err(HttpAuthError::Transport(m)),
        WebhookReply::Unreadable { code, why } => if code == 200 {
            Err(HttpAuthError::Malformed(why))
        } else {
            Err(HttpAuthError::HttpStatus { code })
        },
        WebhookReply::Answer { code, status, ha1 } => {
            if code != 200 {
                return Err(HttpAuthError::HttpStatus { code });
            }
            if status == "accept".to_owned() {
                match ha1 {
                    Some(h) => Ok(Some(Credentials::from_ha1(username, realm, &h))),
                    None => Err(
                        HttpAuthError::Malformed("accept response missing `ha1`".to_owned()),
                    ),
                }
            } else if status == "deny".to_owned() {
                Ok(None)
            } else {
                let mut m: String = "unknown status `".to_owned();
                m.append(&status);
                m.append("` (expected accept|deny)");
                Err(HttpAuthError::Malformed(m))
            }
        },
    }
}

/// What to do next in a lookup.
#[derive(Debug)]
pub enum LookupStep {
    /// Post the request.
    Ask,
    /// The lookup is over.
    Done(Result<Option<Credentials>, HttpAuthError>),
}

/// Model of a [`LookupStep`].
#[verifier::ext_equal]
pub enum StepView {
    Ask,
    Done(LookupView),
}

impl View for LookupStep {
    type V = StepView;

    open spec fn view(&self) -> StepView {
        match *self {
            LookupStep::Ask => StepView::Ask,
            LookupStep::Done(r) => StepView::Done(lookup_view(r)),
        }
    }
}

/// How a lookup begins at `now`.
pub open spec fn begin(b: BreakerView, mode: FailureMode, now: u64) -> StepView {
    match gate_of(b, now) {
        None => StepView::Ask,
        Some(secs) => match mode {
            FailureMode::FailClosed => StepView::Done(
                LookupView::Failed(http_error_text(HttpAuthError::BreakerOpen { cooldown_secs: secs })),
            ),
            FailureMode::FailOpen => StepView::Done(LookupView::Found(None)),
        },
    }
}

/// How a lookup goes on after attempt number `attempt`, counted from 0, had
/// the outcome `outcome`: a success ends it, a failure is tried again up to
/// `retries` times. Only the last failure counts for the breaker.
pub open spec fn proceed(
    b: BreakerView,
    retries: u8,
    attempt: u8,
    outcome: LookupView,
    now: u64,
) -> (BreakerView, StepView) {
    match outcome {
        LookupView::Found(_) => (after_success(b), StepView::Done(outcome)),
        LookupView::Failed(_) => if attempt < retries {
            (b, StepView::Ask)
        } else {
            (after_failure(b, now), StepView::Done(outcome))
        },
    }
}

/// The decisions of the webhook store.
#[derive(Debug)]
pub struct HttpAuthStore {
    config: HttpAuthConfig,
    breaker: Breaker,
}

impl HttpAuthStore {
    /// The breaker.
    pub closed spec fn breaker(&self) -> BreakerView {
        self.breaker@
    }

    /// The settings.
    pub closed spec fn settings(&self) -> HttpAuthConfig {
        self.config
    }

    /// A store with a closed breaker.
    pub fn new(config: HttpAuthConfig) -> (r: Self)
        ensures
            r.settings() == config,
            r.breaker() == (BreakerView {
                failures: 0,
                tripped_at: 0,
                threshold: config.breaker_threshold,
                cooldown: config.breaker_cooldown,
            }),
    {
        let breaker = Breaker::new(config.breaker_threshold, config.breaker_cooldown);
        HttpAuthStore { config, breaker }
    }

    /// The settings.
    pub fn config(&self) -> (r: &HttpAuthConfig)
        ensures
            *r == self.settings(),
    {
        &self.config
    }

    /// Failures since the last success.
    #[must_use]
    pub fn consecutive_failures(&self) -> (r: u32)
        ensures
            r == self.breaker().failures,
    {
        self.breaker.consecutive_failures()
    }

    /// `true` while the breaker is open.
    #[must_use]
    pub fn is_breaker_open(&self) -> (r: bool)
        ensures
            exists|now: u64| r == ((#[trigger] gate_of(self.breaker(), now)) is Some),
    {
        let now = unix_now();
        let open = self.breaker.gate_at(now);
        assert(gate_of(self.breaker(), now) == open);
        open.is_some()
    }

    /// Begins a lookup at `now`.
    pub fn start_at(&self, now: u64) -> (r: LookupStep)
        ensures
            r@ == begin(self.breaker(), self.settings().failure_mode, now),
    {
        match self.breaker.gate_at(now) {
            None => LookupStep::Ask,
            Some(cooldown_secs) => match self.config.failure_mode {
                FailureMode::FailClosed => LookupStep::Done(
                    Err(HttpAuthError::BreakerOpen { cooldown_secs }),
                ),
                FailureMode::FailOpen => LookupStep::Done(Ok(None)),
            },
        }
    }

    /// Goes on after attempt number `attempt`, counted from 0.
    pub fn after_attempt(
        &mut self,
        attempt: u8,
        outcome: Result<Option<Credentials>, HttpAuthError>,
        now: u64,
    ) -> (r: LookupStep)
        ensures
            (final(self).breaker(), r@) == proceed(
                old(self).breaker(),
                old(self).settings().retries,
                attempt,
                lookup_view(outcome),
                now,
            ),
            final(self).settings() == old(self).settings(),
    {
        match outcome {
            Ok(c) => {
                self.breaker.record_success();
                LookupStep::Done(Ok(c))
            },
            Err(e) => {
                if attempt < self.config.retries {
                    LookupStep::Ask
                } else {
                    self.breaker.record_failure_at(now);
                    LookupStep::Done(Err(e))
                }
            },
        }
    }
}

// ---------------------------------------------------------------------
// Laws
// ---------------------------------------------------------------------

/// The breaker after failures in a row, one at each of `times`.
pub open spec fn after_failures(b: BreakerView, times: Seq<u64>) -> BreakerView
    decreases times.len(),
{
    if times.len() == 0 {
        b
    } else {
        after_failure(after_failures(b, times.drop_last()), times.last())
    }
}

/// A closed breaker opens at the failure that reaches its threshold, not
/// earlier, and stays open for its cooldown after the last failure, whenever
/// the failures came. A clock that reads 0 opens nothing.
pub proof fn breaker_opens_at_its_threshold(b: BreakerView, times: Seq<u64>, now: u64)
    requires
        b.failures == 0,
        b.tripped_at == 0,
        b.threshold > 0,
        times.len() < u32::MAX,
    ensures
        after_failures(b, times).failures == times.len(),
        times.len() < b.threshold ==> gate_of(after_failures(b, times), now) is None,
        times.len() >= b.threshold ==> gate_of(after_failures(b, times), now) == ({
            let since = if now >= times.last() {
                now - times.last()
            } else {
                0
            };
            if times.last() == 0 || since >= b.cooldown / 1000 {
                None
            } else {
                Some((b.cooldown / 1000 - since) as u64)
            }
        }),
{
    lemma_failures_keep(b, times);
}

proof fn lemma_failures_keep(b: BreakerView, times: Seq<u64>)
    requires
        b.failures == 0,
        b.tripped_at == 0,
        b.threshold > 0,
        times.len() < u32::MAX,
    ensures
        after_failures(b, times).threshold == b.threshold,
        after_failures(b, times).cooldown == b.cooldown,
        after_failures(b, times).failures == times.len(),
        after_failures(b, times).tripped_at == if times.len() >= b.threshold {
            times.last()
        } else {
            0
        },
    decreases times.len(),
{
    if times.len() > 0 {
        lemma_failures_keep(b, times.drop_last());
    }
}

/// A success closes the breaker, whatever came before.
pub proof fn success_closes_the_breaker(b: BreakerView, now: u64)
    ensures
        gate_of(after_success(b), now) is None,
        after_success(b).failures == 0,
{
}

/// A lookup makes at most one attempt more than there are retries.
pub proof fn attempts_are_bounded(
    b: BreakerView,
    retries: u8,
    attempt: u8,
    outcome: LookupView,
    now: u64,
)
    requires
        attempt >= retries,
    ensures
        proceed(b, retries, attempt, outcome, now).1 is Done,
{
}

} // verus!

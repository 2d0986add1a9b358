//! Recovery: what to do when a request fails in a way that trying again differently
//! would fix.
//!
//! Each policy knows one failure. They stack: a rate limit is waited out, an overflow
//! is compacted, and only then is a request retried as it was.
use crate::data::{none_of, one_of, put, Dup};
use crate::events::{
    InjectionOrigin, InjectionOriginView, NoticeKind, SessionEvent, SessionEventView,
};
use crate::loop_policy;
use crate::loop_policy::{Retry, Retrying, RetryingView};
use crate::span::{CompactionDecision, CompactionDecisionView};
use crate::stream;
use crate::text;
use crate::text::{join, lit, number, split_by, trim};
use crate::turn::{ModelResponse, ModelResponseView, RequestError, RequestErrorView};
use vstd::prelude::*;

verus! {

/// What to do about a request that failed, where rate limits are waited out.
#[derive(Debug, PartialEq, Eq)]
pub enum Limited {
    /// Hand on this error.
    Fail { error: RequestError },
    /// Say so, wait, and send it again.
    Wait { ms: u64, notice: String },
}

/// What a [`Limited`] holds.
#[verifier::ext_equal]
pub enum LimitedView {
    Fail { error: RequestErrorView },
    Wait { ms: u64, notice: Seq<char> },
}

impl DeepView for Limited {
    type V = LimitedView;

    open spec fn deep_view(&self) -> LimitedView {
        match self {
            Limited::Fail { error } => LimitedView::Fail {
                error: error.deep_view(),
            },
            Limited::Wait { ms, notice } => LimitedView::Wait {
                ms: ms.deep_view(),
                notice: notice.deep_view(),
            },
        }
    }
}

impl Dup for Limited {
    fn dup(&self) -> (r: Self) {
        match self {
            Limited::Fail { error } => Limited::Fail {
                error: error.dup(),
            },
            Limited::Wait { ms, notice } => Limited::Wait {
                ms: ms.dup(),
                notice: notice.dup(),
            },
        }
    }
}

impl Clone for Limited {
    fn clone(&self) -> (r: Self)
        ensures
            r.deep_view() == self.deep_view(),
    {
        self.dup()
    }
}

/// What to do about a request whose history did not fit.
#[derive(Debug, PartialEq, Eq)]
pub enum Laddered {
    /// Hand on this error.
    Fail { error: RequestError },
    /// Log these facts, derive the request anew, and send it again.
    Retry { facts: Vec<SessionEvent> },
}

/// What a [`Laddered`] holds.
#[verifier::ext_equal]
pub enum LadderedView {
    Fail { error: RequestErrorView },
    Retry { facts: Seq<SessionEventView> },
}

impl DeepView for Laddered {
    type V = LadderedView;

    open spec fn deep_view(&self) -> LadderedView {
        match self {
            Laddered::Fail { error } => LadderedView::Fail {
                error: error.deep_view(),
            },
            Laddered::Retry { facts } => LadderedView::Retry {
                facts: facts.deep_view(),
            },
        }
    }
}

impl Dup for Laddered {
    fn dup(&self) -> (r: Self) {
        match self {
            Laddered::Fail { error } => Laddered::Fail {
                error: error.dup(),
            },
            Laddered::Retry { facts } => Laddered::Retry {
                facts: facts.dup(),
            },
        }
    }
}

impl Clone for Laddered {
    fn clone(&self) -> (r: Self)
        ensures
            r.deep_view() == self.deep_view(),
    {
        self.dup()
    }
}

/// A notice to the person, through the log.
pub open spec fn notice_fact(turn: u64, notice: NoticeKind, detail: Seq<char>) -> SessionEventView {
    SessionEventView::Notice { turn, notice, detail }
}

pub fn notice(turn: u64, kind: NoticeKind, detail: String) -> (e: SessionEvent)
    ensures
        e.deep_view() == notice_fact(turn, kind, detail@),
{
    SessionEvent::Notice { turn, notice: kind, detail }
}

// ---- rate limits ----------------------------------------------------------

/// Waiting out a rate limit.
#[derive(Clone, Copy, Debug, PartialEq, Eq, Structural)]
pub struct RateLimit {
    pub max_waits: u32,
    /// A limit that lifts later than this is handed back.
    pub max_wait_ms: u64,
    /// The wait where the server named none.
    pub fallback_ms: u64,
}

impl Default for RateLimit {
    fn default() -> (r: Self)
        ensures
            r == (RateLimit { max_waits: 5, max_wait_ms: 120_000, fallback_ms: 5000 }),
    {
        RateLimit { max_waits: 5, max_wait_ms: 120_000, fallback_ms: 5000 }
    }
}

pub open spec fn wait_of(r: RateLimit, e: RequestErrorView) -> u64 {
    match e.retry_after_ms {
        Some(ms) => ms,
        None => r.fallback_ms,
    }
}

pub open spec fn too_long(message: Seq<char>, ms: u64) -> Seq<char> {
    message + " (resets in "@ + text::decimal((ms / 1000) as nat)
        + "s — longer than this harness waits)"@
}

pub open spec fn waiting_notice(ms: u64, nth: u32, most: u32) -> Seq<char> {
    "rate limited; waiting "@ + text::decimal((ms / 1000) as nat) + "s ("@ + text::decimal(
        nth as nat,
    ) + "/"@ + text::decimal(most as nat) + ")"@
}

/// After `waits` waits in this request.
pub open spec fn limited(r: RateLimit, waits: u32, e: RequestErrorView) -> LimitedView {
    if !e.rate_limited || waits >= r.max_waits {
        LimitedView::Fail { error: e }
    } else if wait_of(r, e) > r.max_wait_ms {
        LimitedView::Fail {
            error: RequestErrorView { message: too_long(e.message, wait_of(r, e)), ..e },
        }
    } else {
        LimitedView::Wait {
            ms: wait_of(r, e),
            notice: waiting_notice(wait_of(r, e), (waits + 1) as u32, r.max_waits),
        }
    }
}

impl RateLimit {
    /// What to do about an error, after `waits` waits in this request.
    pub fn failed(&self, waits: u32, error: RequestError) -> (r: Limited)
        ensures
            r.deep_view() == limited(*self, waits, error.deep_view()),
    {
        if !error.rate_limited || waits >= self.max_waits {
            return Limited::Fail { error };
        }
        let ms = match error.retry_after_ms {
            Some(ms) => ms,
            None => self.fallback_ms,
        };
        if ms > self.max_wait_ms {
            let message = error.message.clone().concat(" (resets in ").concat(
                number(ms / 1000).as_str(),
            ).concat("s — longer than this harness waits)");
            return Limited::Fail { error: RequestError { message, ..error } };
        }
        let notice = lit("rate limited; waiting ").concat(number(ms / 1000).as_str()).concat(
            "s (",
        ).concat(number((waits + 1) as u64).as_str()).concat("/").concat(
            number(self.max_waits as u64).as_str(),
        ).concat(")");
        Limited::Wait { ms, notice }
    }
}

/// The server's own hint is never undercut: where it is waited for at all, it is
/// waited for in full. And no wait is longer than the ceiling.
pub proof fn law_hint_is_honoured(r: RateLimit, waits: u32, e: RequestErrorView)
    ensures
        limited(r, waits, e) matches LimitedView::Wait { ms, .. } ==> ms <= r.max_wait_ms && waits
            < r.max_waits && e.rate_limited && (e.retry_after_ms matches Some(hint) ==> ms == hint),
{
}

// ---- context overflow -----------------------------------------------------

/// Compacting and sending again when the history no longer fits.
#[derive(Clone, Copy, Debug, PartialEq, Eq, Structural)]
pub struct OverflowLadder {
    pub max_attempts: u32,
}

impl Default for OverflowLadder {
    fn default() -> (r: Self)
        ensures
            r.max_attempts == 3,
    {
        OverflowLadder { max_attempts: 3 }
    }
}

pub open spec fn compacted_fact(turn: u64, d: CompactionDecisionView) -> SessionEventView {
    SessionEventView::Compacted { turn, through: d.through, summary: d.summary, from: d.from }
}

pub open spec fn overflow_notice(nth: u32, most: u32) -> Seq<char> {
    "context overflow; compacted and retrying ("@ + text::decimal(nth as nat) + "/"@
        + text::decimal(most as nat) + ")"@
}

/// Whether an error is the ladder's to handle, after `attempt` passes.
pub open spec fn on_ladder(l: OverflowLadder, attempt: u32, e: RequestErrorView) -> bool {
    e.context_overflow && attempt < l.max_attempts
}

/// The ladder's next rung. `mounted` says whether a session and a compaction are
/// there; `decision` is what the compaction came to.
pub open spec fn climbed(
    l: OverflowLadder,
    attempt: u32,
    e: RequestErrorView,
    mounted: bool,
    decision: Option<CompactionDecisionView>,
    turn: u64,
) -> LadderedView {
    if !on_ladder(l, attempt, e) {
        LadderedView::Fail { error: e }
    } else if !mounted {
        LadderedView::Fail {
            error: RequestErrorView {
                message: e.message
                    + " (no compaction provider is mounted, so this cannot recover)"@,
                ..e
            },
        }
    } else {
        match decision {
            None => LadderedView::Fail {
                error: RequestErrorView {
                    message: e.message + " (nothing further can be compacted)"@,
                    ..e
                },
            },
            Some(d) => LadderedView::Retry {
                facts: seq![
                    compacted_fact(turn, d),
                    notice_fact(
                        turn,
                        NoticeKind::OverflowCompacted,
                        overflow_notice((attempt + 1) as u32, l.max_attempts),
                    ),
                ],
            },
        }
    }
}

impl OverflowLadder {
    /// Whether the error is this ladder's: only then is a compaction asked for.
    pub fn handles(&self, attempt: u32, error: &RequestError) -> (r: bool)
        ensures
            r == on_ladder(*self, attempt, error.deep_view()),
    {
        error.context_overflow && attempt < self.max_attempts
    }

    /// What follows from what the compaction came to.
    pub fn climb(
        &self,
        attempt: u32,
        error: RequestError,
        mounted: bool,
        decision: Option<CompactionDecision>,
        turn: u64,
    ) -> (r: Laddered)
        ensures
            r.deep_view() == climbed(
                *self,
                attempt,
                error.deep_view(),
                mounted,
                decision.deep_view(),
                turn,
            ),
    {
        if !self.handles(attempt, &error) {
            return Laddered::Fail { error };
        }
        if !mounted {
            let message = error.message.clone().concat(
                " (no compaction provider is mounted, so this cannot recover)",
            );
            return Laddered::Fail { error: RequestError { message, ..error } };
        }
        match decision {
            None => {
                let message = error.message.clone().concat(" (nothing further can be compacted)");
                Laddered::Fail { error: RequestError { message, ..error } }
            },
            Some(d) => {
                let mut facts = one_of(
                    SessionEvent::Compacted {
                        turn,
                        through: d.through,
                        summary: d.summary,
                        from: d.from,
                    },
                );
                let detail = lit("context overflow; compacted and retrying (").concat(
                    number((attempt + 1) as u64).as_str(),
                ).concat("/").concat(number(self.max_attempts as u64).as_str()).concat(")");
                put(&mut facts, notice(turn, NoticeKind::OverflowCompacted, detail));
                let ghost dv = decision.deep_view()->0;
                assert(facts.deep_view() =~= seq![
                    compacted_fact(turn, dv),
                    notice_fact(
                        turn,
                        NoticeKind::OverflowCompacted,
                        overflow_notice((attempt + 1) as u32, self.max_attempts),
                    ),
                ]);
                Laddered::Retry { facts }
            },
        }
    }
}

/// A request is never sent again unchanged: every rung of the ladder logs a
/// compaction first, and there are at most so many rungs.
pub proof fn law_a_rung_shrinks_first(
    l: OverflowLadder,
    attempt: u32,
    e: RequestErrorView,
    mounted: bool,
    decision: Option<CompactionDecisionView>,
    turn: u64,
)
    ensures
        climbed(l, attempt, e, mounted, decision, turn) matches LadderedView::Retry { facts } ==> {
            &&& attempt < l.max_attempts
            &&& decision matches Some(d) && facts[0] == compacted_fact(turn, d)
        },
{
}

// ---- how they nest --------------------------------------------------------

/// The recoveries of one request, as they nest: the rate limit is waited out outermost,
/// an overflow is compacted under it, and a retry stands next to the provider. What one
/// hands on goes to the one around it; what one sends again starts those inside anew.
#[derive(Clone, Copy, Debug, PartialEq, Eq, Structural)]
pub struct Recovering {
    pub limit: RateLimit,
    pub ladder: OverflowLadder,
    pub retry: Retry,
    /// Rate limits waited out.
    pub waits: u32,
    /// Rungs climbed since.
    pub rungs: u32,
    /// The attempt that is under way since.
    pub attempt: u32,
}

/// What to do about a failed request.
#[derive(Debug, PartialEq, Eq)]
pub enum Recovery {
    /// Say so, wait, and send it again.
    Again { kind: NoticeKind, ms: u64, notice: String },
    /// Ask for a compaction, and report what it came to.
    Compact { error: RequestError },
    /// Log these facts, derive the request anew, and send it.
    Anew { facts: Vec<SessionEvent> },
    /// Hand on this error.
    Fail { error: RequestError },
}

/// What a [`Recovery`] holds.
#[verifier::ext_equal]
pub enum RecoveryView {
    Again { kind: NoticeKind, ms: u64, notice: Seq<char> },
    Compact { error: RequestErrorView },
    Anew { facts: Seq<SessionEventView> },
    Fail { error: RequestErrorView },
}

impl DeepView for Recovery {
    type V = RecoveryView;

    open spec fn deep_view(&self) -> RecoveryView {
        match self {
            Recovery::Again { kind, ms, notice } => RecoveryView::Again {
                kind: *kind,
                ms: *ms,
                notice: notice.deep_view(),
            },
            Recovery::Compact { error } => RecoveryView::Compact { error: error.deep_view() },
            Recovery::Anew { facts } => RecoveryView::Anew { facts: facts.deep_view() },
            Recovery::Fail { error } => RecoveryView::Fail { error: error.deep_view() },
        }
    }
}

/// What the outermost recovery makes of an error the inner ones handed on.
pub open spec fn outermost(s: Recovering, e: RequestErrorView) -> (Recovering, RecoveryView) {
    match limited(s.limit, s.waits, e) {
        LimitedView::Fail { error } => (s, RecoveryView::Fail { error }),
        LimitedView::Wait { ms, notice } => (
            Recovering { waits: (s.waits + 1) as u32, rungs: 0, attempt: 1, ..s },
            RecoveryView::Again { kind: NoticeKind::RateLimited, ms, notice },
        ),
    }
}

/// What the recoveries make of an error of the provider, from the inside out.
pub open spec fn recovering(s: Recovering, e: RequestErrorView, answering_a_nudge: bool) -> (
    Recovering,
    RecoveryView,
) {
    match loop_policy::retried(s.retry, s.attempt, e, answering_a_nudge) {
        RetryingView::Wait { ms, notice } => (
            Recovering { attempt: (s.attempt + 1) as u32, ..s },
            RecoveryView::Again { kind: NoticeKind::ProviderRetry, ms, notice },
        ),
        RetryingView::GiveUp => if on_ladder(s.ladder, s.rungs, e) {
            (s, RecoveryView::Compact { error: e })
        } else {
            outermost(s, e)
        },
    }
}

/// What the recoveries make of what a compaction came to.
pub open spec fn shrunk(
    s: Recovering,
    e: RequestErrorView,
    mounted: bool,
    decision: Option<CompactionDecisionView>,
    turn: u64,
) -> (Recovering, RecoveryView) {
    match climbed(s.ladder, s.rungs, e, mounted, decision, turn) {
        LadderedView::Retry { facts } => (
            Recovering { rungs: (s.rungs + 1) as u32, attempt: 1, ..s },
            RecoveryView::Anew { facts },
        ),
        LadderedView::Fail { error } => outermost(s, error),
    }
}

impl Recovering {
    /// The recoveries of a request that is about to be sent.
    pub fn new(limit: RateLimit, ladder: OverflowLadder, retry: Retry) -> (r: Self)
        ensures
            r == (Recovering { limit, ladder, retry, waits: 0, rungs: 0, attempt: 1 }),
    {
        Recovering { limit, ladder, retry, waits: 0, rungs: 0, attempt: 1 }
    }

    fn hand_out(&mut self, error: RequestError) -> (r: Recovery)
        ensures
            (*final(self), r.deep_view()) == outermost(*old(self), error.deep_view()),
    {
        match self.limit.failed(self.waits, error) {
            Limited::Fail { error } => Recovery::Fail { error },
            Limited::Wait { ms, notice } => {
                self.waits = self.waits + 1;
                self.rungs = 0;
                self.attempt = 1;
                Recovery::Again { kind: NoticeKind::RateLimited, ms, notice }
            },
        }
    }

    /// What to do about an error of the provider.
    pub fn failed(&mut self, error: RequestError, answering_a_nudge: bool) -> (r: Recovery)
        ensures
            (*final(self), r.deep_view()) == recovering(
                *old(self),
                error.deep_view(),
                answering_a_nudge,
            ),
    {
        match self.retry.failed(self.attempt, &error, answering_a_nudge) {
            Retrying::Wait { ms, notice } => {
                self.attempt = self.attempt + 1;
                Recovery::Again { kind: NoticeKind::ProviderRetry, ms, notice }
            },
            Retrying::GiveUp => {
                if self.ladder.handles(self.rungs, &error) {
                    Recovery::Compact { error }
                } else {
                    self.hand_out(error)
                }
            },
        }
    }

    /// What to do once a compaction was asked for. `mounted` says whether a session and
    /// a compaction are there, `decision` what the compaction came to.
    pub fn compacted(
        &mut self,
        error: RequestError,
        mounted: bool,
        decision: Option<CompactionDecision>,
        turn: u64,
    ) -> (r: Recovery)
        ensures
            (*final(self), r.deep_view()) == shrunk(
                *old(self),
                error.deep_view(),
                mounted,
                decision.deep_view(),
                turn,
            ),
    {
        match self.ladder.climb(self.rungs, error, mounted, decision, turn) {
            Laddered::Retry { facts } => {
                self.rungs = self.rungs + 1;
                self.attempt = 1;
                Recovery::Anew { facts }
            },
            Laddered::Fail { error } => self.hand_out(error),
        }
    }
}

/// The rate limit is handled outermost and an overflow before a retry: neither a rate
/// limit nor an overflow is ever sent again by the retry, an overflow is compacted as
/// long as there are rungs, and a rate limit that is no overflow is waited out or handed
/// back, never compacted.
pub proof fn law_each_failure_has_its_layer(
    s: Recovering,
    e: RequestErrorView,
    answering_a_nudge: bool,
)
    ensures
        ({
            let r = recovering(s, e, answering_a_nudge).1;
            &&& e.rate_limited || e.context_overflow ==> !(r matches RecoveryView::Again {
                kind,
                ..
            } && kind is ProviderRetry)
            &&& e.context_overflow && s.rungs < s.ladder.max_attempts ==> r is Compact
            &&& e.rate_limited && !e.context_overflow ==> r is Fail || (
            r matches RecoveryView::Again { kind, .. } && kind is RateLimited)
        }),
{
}

/// What an outer recovery sends again starts the inner ones anew.
pub proof fn law_an_outer_layer_starts_the_inner_anew(
    s: Recovering,
    e: RequestErrorView,
    answering_a_nudge: bool,
    mounted: bool,
    decision: Option<CompactionDecisionView>,
    turn: u64,
)
    ensures
        recovering(s, e, answering_a_nudge).1 matches RecoveryView::Again { kind, .. } && kind
            is RateLimited ==> recovering(s, e, answering_a_nudge).0.rungs == 0 && recovering(
            s,
            e,
            answering_a_nudge,
        ).0.attempt == 1,
        shrunk(s, e, mounted, decision, turn).1 is Anew ==> shrunk(
            s,
            e,
            mounted,
            decision,
            turn,
        ).0.attempt == 1,
{
}

// ---- liveness -------------------------------------------------------------

pub fn default_request_secs() -> (n: u64)
    ensures
        n == 600,
{
    600
}

/// The error of a request that took too long. It may be retried.
pub open spec fn overdue(limit_secs: u64) -> RequestErrorView {
    RequestErrorView {
        retryable: true,
        ..stream::plain_error(
            "the model request exceeded "@ + text::decimal(limit_secs as nat) + "s"@,
        )
    }
}

pub fn timed_out(limit_secs: u64) -> (e: RequestError)
    ensures
        e.deep_view() == overdue(limit_secs),
{
    let message = lit("the model request exceeded ").concat(number(limit_secs).as_str()).concat(
        "s",
    );
    RequestError { retryable: true, ..RequestError::message(message) }
}

// ---- reasoning hygiene ----------------------------------------------------

/// Every place of `t` taken out, from the left.
pub open spec fn without(s: Seq<char>, t: Seq<char>) -> Seq<char> {
    text::joined(text::pieces_by(s, t), ""@)
}

/// Placeholders that are not content.
pub open spec fn filler() -> Seq<Seq<char>> {
    seq![
        "·"@,
        "(no reasoning detected)"@,
        "(no reasoning recorded)"@,
        "no reasoning detected"@,
        "no reasoning recorded"@,
    ]
}

/// Reasoning with its placeholders taken out, one after the other, and no white space
/// around what is left.
pub open spec fn cleaned(s: Seq<char>) -> Seq<char> {
    text::trimmed(
        without(
            without(
                without(without(without(s, filler()[0]), filler()[1]), filler()[2]),
                filler()[3],
            ),
            filler()[4],
        ),
    )
}

fn remove(s: &str, t: &str) -> (r: String)
    requires
        t@.len() > 0,
    ensures
        r@ == without(s@, t@),
{
    join(&split_by(s, t), "")
}

pub fn clean_reasoning(reasoning: &str) -> (r: String)
    ensures
        r@ == cleaned(reasoning@),
{
    proof {
        reveal_strlit("·");
        reveal_strlit("(no reasoning detected)");
        reveal_strlit("(no reasoning recorded)");
        reveal_strlit("no reasoning detected");
        reveal_strlit("no reasoning recorded");
    }
    let s = remove(reasoning, "·");
    let s = remove(s.as_str(), "(no reasoning detected)");
    let s = remove(s.as_str(), "(no reasoning recorded)");
    let s = remove(s.as_str(), "no reasoning detected");
    let s = remove(s.as_str(), "no reasoning recorded");
    lit(trim(s.as_str()))
}

/// A response with its reasoning cleaned. One without any is untouched.
pub open spec fn filtered(r: ModelResponseView) -> ModelResponseView {
    ModelResponseView {
        reasoning: if r.reasoning.len() == 0 {
            r.reasoning
        } else {
            cleaned(r.reasoning)
        },
        ..r
    }
}

pub fn filter_reasoning(response: ModelResponse) -> (r: ModelResponse)
    ensures
        r.deep_view() == filtered(response.deep_view()),
{
    if response.reasoning.as_str().is_empty() {
        response
    } else {
        let reasoning = clean_reasoning(response.reasoning.as_str());
        ModelResponse { reasoning, ..response }
    }
}

// ---- partial streams ------------------------------------------------------

pub const RESUME_NUDGE: &'static str = "The previous response was cut off mid-stream. The preserved assistant message and any interrupted tool results above are authoritative — continue from that saved progress. Do not repeat tool calls that already completed, and do not restart the task.";

/// Keeps what a broken stream produced, so many times a turn.
#[derive(Clone, Copy, Debug, PartialEq, Eq, Structural)]
pub struct StreamRecovery {
    pub max_recoveries: u32,
    /// The turn whose streams broke last.
    pub turn: Option<u64>,
    /// How many broke in it.
    pub used: u32,
}

pub open spec fn once_more(n: u32) -> u32 {
    if n == u32::MAX {
        n
    } else {
        (n + 1) as u32
    }
}

/// Which broken stream of its turn the next one of `turn` is: the count starts anew
/// with each turn.
pub open spec fn nth_break(r: StreamRecovery, turn: Option<u64>) -> u32 {
    if r.turn == turn {
        once_more(r.used)
    } else {
        1
    }
}

/// What a broken stream produced, as a message of its own. Its tool calls are dropped:
/// one still streaming has partial arguments, and one that finished has no result.
pub open spec fn recovered(
    partial: ModelResponseView,
    turn: u64,
    round: u32,
    used: u32,
    most: u32,
) -> Seq<SessionEventView> {
    seq![
        SessionEventView::AssistantMessage {
            turn,
            round,
            text: partial.text,
            reasoning: partial.reasoning,
            tool_calls: Seq::empty(),
            meta: None,
        },
        SessionEventView::Injected {
            turn,
            text: RESUME_NUDGE@,
            origin: InjectionOriginView::Continuation,
        },
        notice_fact(
            turn,
            NoticeKind::StreamRecovered,
            "stream broke after partial output; preserved it and continuing ("@ + text::decimal(
                used as nat,
            ) + "/"@ + text::decimal(most as nat) + ")"@,
        ),
    ]
}

/// What a stream that broke leaves: how often it happened, and what the log is told
/// where the turn goes on.
pub open spec fn broken(
    r: StreamRecovery,
    partial: Option<ModelResponseView>,
    turn: Option<u64>,
    round: u32,
) -> (StreamRecovery, Option<Seq<SessionEventView>>) {
    let n = nth_break(r, turn);
    (
        if partial is Some {
            StreamRecovery { turn, used: n, ..r }
        } else {
            r
        },
        match (partial, turn) {
            (Some(p), Some(t)) => if n <= r.max_recoveries {
                Some(recovered(p, t, round, n, r.max_recoveries))
            } else {
                None
            },
            _ => None,
        },
    )
}

impl StreamRecovery {
    pub fn new(max_recoveries: u32) -> (r: Self)
        ensures
            r == (StreamRecovery { max_recoveries, turn: None, used: 0 }),
    {
        StreamRecovery { max_recoveries, turn: None, used: 0 }
    }

    /// The facts to log before the request is derived anew and sent once more. None
    /// where the error is to be handed on: it carries nothing, the turn's recoveries
    /// are used up, or there is no session to log to.
    pub fn failed(&mut self, error: &RequestError, turn: Option<u64>, round: u32) -> (facts: Option<
        Vec<SessionEvent>,
    >)
        ensures
            (*final(self), facts.deep_view()) == broken(
                *old(self),
                error.deep_view().partial,
                turn,
                round,
            ),
    {
        match &error.partial {
            None => None,
            Some(partial) => {
                self.used = if self.turn == turn {
                    self.used.saturating_add(1)
                } else {
                    1
                };
                self.turn = turn;
                if self.used > self.max_recoveries {
                    return None;
                }
                match turn {
                    None => None,
                    Some(turn) => {
                        let mut facts = one_of(
                            SessionEvent::AssistantMessage {
                                turn,
                                round,
                                text: partial.text.clone(),
                                reasoning: partial.reasoning.clone(),
                                tool_calls: none_of(),
                                meta: None,
                            },
                        );
                        put(
                            &mut facts,
                            SessionEvent::Injected {
                                turn,
                                text: lit(RESUME_NUDGE),
                                origin: InjectionOrigin::Continuation,
                            },
                        );
                        let detail = lit(
                            "stream broke after partial output; preserved it and continuing (",
                        ).concat(number(self.used as u64).as_str()).concat("/").concat(
                            number(self.max_recoveries as u64).as_str(),
                        ).concat(")");
                        put(&mut facts, notice(turn, NoticeKind::StreamRecovered, detail));
                        assert(facts.deep_view() =~= recovered(
                            partial.deep_view(),
                            turn,
                            round,
                            self.used,
                            self.max_recoveries,
                        ));
                        Some(facts)
                    },
                }
            },
        }
    }
}

/// The limit is a turn's own: whatever happened before, the first stream that breaks
/// in a turn is kept wherever any may be.
pub proof fn law_each_turn_starts_anew(r: StreamRecovery, turn: u64)
    requires
        r.turn != Some(turn),
    ensures
        nth_break(r, Some(turn)) == 1,
        r.max_recoveries >= 1 ==> nth_break(r, Some(turn)) <= r.max_recoveries,
{
}

/// What was written survives the break, word for word, and no call of it does.
pub proof fn law_nothing_written_is_lost(
    partial: ModelResponseView,
    turn: u64,
    round: u32,
    used: u32,
    most: u32,
)
    ensures
        recovered(partial, turn, round, used, most)[0] == (SessionEventView::AssistantMessage {
            turn,
            round,
            text: partial.text,
            reasoning: partial.reasoning,
            tool_calls: Seq::empty(),
            meta: None,
        }),
{
}

} // verus!

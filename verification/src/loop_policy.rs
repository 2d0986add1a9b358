//! Turn policy: a round budget, a wall-clock deadline, provider retry, compaction by
//! listing, and two guards against going in circles.
use crate::data::{none_of, put, put_all, Dup};
use crate::events::{
    InjectionOrigin, InjectionOriginView, LoggedEventView, SessionEvent, SessionEventView,
    SessionLog, SessionLogView, StopReason, ToolCall, ToolCallView, ToolResult, ToolResultView,
};
use crate::json;
use crate::message::{Message, MessageView, Role};
use crate::order;
use crate::order::sort;
use crate::span;
use crate::span::{listed_summary, settled_span, CompactionDecision, CompactionDecisionView};
use crate::table::Table;
use crate::text;
use crate::text::{join, lit, number, same};
use crate::turn::{RequestError, RequestErrorView, TurnProgress};
use vstd::prelude::*;

verus! {

/// Where the round budget stands with a turn.
#[derive(Debug, PartialEq, Eq)]
pub enum CapStep {
    /// Decided: stop for this reason, or go on.
    Verdict { stop: Option<StopReason> },
    /// The person is to be asked, with this payload.
    Ask { cap: u32, payload: String },
}

/// What a [`CapStep`] holds.
#[verifier::ext_equal]
pub enum CapStepView {
    Verdict { stop: Option<StopReason> },
    Ask { cap: u32, payload: Seq<char> },
}

impl DeepView for CapStep {
    type V = CapStepView;

    open spec fn deep_view(&self) -> CapStepView {
        match self {
            CapStep::Verdict { stop } => CapStepView::Verdict {
                stop: stop.deep_view(),
            },
            CapStep::Ask { cap, payload } => CapStepView::Ask {
                cap: cap.deep_view(),
                payload: payload.deep_view(),
            },
        }
    }
}

impl Dup for CapStep {
    fn dup(&self) -> (r: Self) {
        match self {
            CapStep::Verdict { stop } => CapStep::Verdict {
                stop: stop.dup(),
            },
            CapStep::Ask { cap, payload } => CapStep::Ask {
                cap: cap.dup(),
                payload: payload.dup(),
            },
        }
    }
}

impl Clone for CapStep {
    fn clone(&self) -> (r: Self)
        ensures
            r.deep_view() == self.deep_view(),
    {
        self.dup()
    }
}

/// What to do about a failed request.
#[derive(Debug, PartialEq, Eq)]
pub enum Retrying {
    /// Hand the error on.
    GiveUp,
    /// Say so, wait, and send it again.
    Wait { ms: u64, notice: String },
}

/// What a [`Retrying`] holds.
#[verifier::ext_equal]
pub enum RetryingView {
    GiveUp,
    Wait { ms: u64, notice: Seq<char> },
}

impl DeepView for Retrying {
    type V = RetryingView;

    open spec fn deep_view(&self) -> RetryingView {
        match self {
            Retrying::GiveUp => RetryingView::GiveUp,
            Retrying::Wait { ms, notice } => RetryingView::Wait {
                ms: ms.deep_view(),
                notice: notice.deep_view(),
            },
        }
    }
}

impl Dup for Retrying {
    fn dup(&self) -> (r: Self) {
        match self {
            Retrying::GiveUp => Retrying::GiveUp,
            Retrying::Wait { ms, notice } => Retrying::Wait {
                ms: ms.dup(),
                notice: notice.dup(),
            },
        }
    }
}

impl Clone for Retrying {
    fn clone(&self) -> (r: Self)
        ensures
            r.deep_view() == self.deep_view(),
    {
        self.dup()
    }
}

// ---- round budget ---------------------------------------------------------

/// The kind of the question a round budget puts to the person.
pub const ROUND_CAP_CHECKPOINT_KIND: &'static str = "round_cap_checkpoint";

pub fn default_rounds() -> (n: u32)
    ensures
        n == 24,
{
    24
}

/// A budget of rounds and seconds for one turn; zero is no limit.
pub struct RoundCap {
    pub max_rounds: u32,
    pub max_seconds: u64,
    /// Whether the person is asked before the budget cuts a turn off.
    pub checkpoint: bool,
    /// Rounds granted past the budget, per session, and the turn they were granted in.
    pub granted: Table<(u64, u32)>,
}

pub open spec fn late(max_seconds: u64, p: TurnProgress) -> Option<StopReason> {
    if max_seconds > 0 && p.elapsed_secs >= max_seconds {
        Some(StopReason::StoppedByPolicy)
    } else {
        None
    }
}

/// The verdict of a budget nobody can extend.
pub open spec fn fused(max_rounds: u32, max_seconds: u64, p: TurnProgress) -> Option<StopReason> {
    if !p.continuing {
        None
    } else if max_rounds > 0 && p.rounds >= max_rounds {
        Some(StopReason::MaxRounds)
    } else {
        late(max_seconds, p)
    }
}

pub open spec fn plus(a: u32, b: u32) -> u32 {
    if a + b > u32::MAX {
        u32::MAX
    } else {
        (a + b) as u32
    }
}

/// A session's budget for a turn: the configured one, and what was granted during it.
pub open spec fn budget(
    max_rounds: u32,
    granted: Map<Seq<char>, (u64, u32)>,
    session: Seq<char>,
    turn: u64,
) -> u32 {
    if granted.dom().contains(session) && granted[session].0 == turn {
        plus(max_rounds, granted[session].1)
    } else {
        max_rounds
    }
}

/// The grants once `turn` has begun: one from another turn of the session is gone.
pub open spec fn current_grants(
    granted: Map<Seq<char>, (u64, u32)>,
    session: Seq<char>,
    turn: u64,
) -> Map<Seq<char>, (u64, u32)> {
    if granted.dom().contains(session) && granted[session].0 != turn {
        granted.remove(session)
    } else {
        granted
    }
}

pub open spec fn cap_payload(base: u32, cap: u32, round: u32) -> Seq<char> {
    "{\"base\":"@ + text::decimal(base as nat) + ",\"cap\":"@ + text::decimal(cap as nat)
        + ",\"round\":"@ + text::decimal(round as nat) + "}"@
}

/// Where the budget stands with the turn of a session whose person can be asked.
pub open spec fn cap_step(
    max_rounds: u32,
    max_seconds: u64,
    granted: Map<Seq<char>, (u64, u32)>,
    session: Seq<char>,
    p: TurnProgress,
) -> CapStepView {
    let cap = budget(max_rounds, granted, session, p.turn);
    if !p.continuing {
        CapStepView::Verdict { stop: None }
    } else if max_rounds > 0 && p.rounds >= cap {
        CapStepView::Ask { cap, payload: cap_payload(max_rounds, cap, p.rounds) }
    } else {
        CapStepView::Verdict { stop: late(max_seconds, p) }
    }
}

/// The grants after the person went on: another budget's worth for this turn.
pub open spec fn extended(
    max_rounds: u32,
    granted: Map<Seq<char>, (u64, u32)>,
    session: Seq<char>,
    turn: u64,
) -> Map<Seq<char>, (u64, u32)> {
    if granted.dom().contains(session) {
        granted.insert(session, (granted[session].0, plus(granted[session].1, max_rounds)))
    } else {
        granted.insert(session, (turn, max_rounds))
    }
}

/// What the person's answer comes to: going on, or the end of the turn.
pub open spec fn after_asking(
    max_seconds: u64,
    p: TurnProgress,
    go_on: bool,
    cancelled: bool,
) -> Option<StopReason> {
    if go_on {
        late(max_seconds, p)
    } else if cancelled {
        Some(StopReason::Cancelled)
    } else {
        Some(StopReason::MaxRounds)
    }
}

pub open spec fn grants_after_asking(
    max_rounds: u32,
    granted: Map<Seq<char>, (u64, u32)>,
    session: Seq<char>,
    turn: u64,
    go_on: bool,
) -> Map<Seq<char>, (u64, u32)> {
    if go_on {
        extended(max_rounds, granted, session, turn)
    } else {
        granted
    }
}

/// Whether an answer to the checkpoint says to go on.
pub open spec fn goes_on(answer: Seq<char>) -> bool {
    match json::parsed(answer) {
        Ok(j) => json::bool_under(j, "continue"@) == Some(true),
        Err(_) => false,
    }
}

impl RoundCap {
    /// A budget that asks nobody.
    pub fn fuse(max_rounds: u32, max_seconds: u64) -> (c: Self)
        ensures
            c.max_rounds == max_rounds,
            c.max_seconds == max_seconds,
            !c.checkpoint,
            c.granted@ == Map::<Seq<char>, (u64, u32)>::empty(),
    {
        RoundCap { max_rounds, max_seconds, checkpoint: false, granted: Table::new() }
    }

    fn deadline(&self, progress: &TurnProgress) -> (stop: Option<StopReason>)
        ensures
            stop == late(self.max_seconds, *progress),
    {
        if self.max_seconds > 0 && progress.elapsed_secs >= self.max_seconds {
            Some(StopReason::StoppedByPolicy)
        } else {
            None
        }
    }

    /// The verdict where there is nobody to ask.
    pub fn call(&self, progress: &TurnProgress) -> (stop: Option<StopReason>)
        ensures
            stop == fused(self.max_rounds, self.max_seconds, *progress),
    {
        if !progress.continuing {
            None
        } else if self.max_rounds > 0 && progress.rounds >= self.max_rounds {
            Some(StopReason::MaxRounds)
        } else {
            self.deadline(progress)
        }
    }

    /// The session's budget for this turn. A grant from an earlier turn is dropped.
    pub fn cap_for(&mut self, session: &str, turn: u64) -> (cap: u32)
        ensures
            cap == budget(old(self).max_rounds, old(self).granted@, session@, turn),
            final(self).granted@ == current_grants(old(self).granted@, session@, turn),
            final(self).max_rounds == old(self).max_rounds,
            final(self).max_seconds == old(self).max_seconds,
            final(self).checkpoint == old(self).checkpoint,
    {
        let found = match self.granted.get(session) {
            Some(g) => Some(*g),
            None => None,
        };
        match found {
            Some((granted_turn, extra)) => {
                if granted_turn == turn {
                    self.max_rounds.saturating_add(extra)
                } else {
                    let _ = self.granted.remove(session);
                    self.max_rounds
                }
            },
            None => self.max_rounds,
        }
    }

    /// Where the budget stands with a turn of this session, whose person can be asked.
    pub fn consider(&mut self, session: &str, progress: &TurnProgress) -> (step: CapStep)
        requires
            old(self).checkpoint,
        ensures
            step.deep_view() == cap_step(
                old(self).max_rounds,
                old(self).max_seconds,
                old(self).granted@,
                session@,
                *progress,
            ),
            final(self).granted@ == (if progress.continuing && old(self).max_rounds > 0 {
                current_grants(old(self).granted@, session@, progress.turn)
            } else {
                old(self).granted@
            }),
            final(self).max_rounds == old(self).max_rounds,
            final(self).max_seconds == old(self).max_seconds,
            final(self).checkpoint,
    {
        if !progress.continuing {
            return CapStep::Verdict { stop: None };
        }
        if self.max_rounds > 0 {
            let cap = self.cap_for(session, progress.turn);
            if progress.rounds >= cap {
                let payload = lit("{\"base\":").concat(
                    number(self.max_rounds as u64).as_str(),
                ).concat(",\"cap\":").concat(number(cap as u64).as_str()).concat(
                    ",\"round\":",
                ).concat(number(progress.rounds as u64).as_str()).concat("}");
                return CapStep::Ask { cap, payload };
            }
        }
        CapStep::Verdict { stop: self.deadline(progress) }
    }

    /// What follows once the person was asked. Going on grants another budget's worth;
    /// anything else ends the turn, as a cancellation where that is what it was.
    pub fn asked(
        &mut self,
        session: &str,
        progress: &TurnProgress,
        go_on: bool,
        cancelled: bool,
    ) -> (stop: Option<StopReason>)
        ensures
            stop == after_asking(old(self).max_seconds, *progress, go_on, cancelled),
            final(self).granted@ == grants_after_asking(
                old(self).max_rounds,
                old(self).granted@,
                session@,
                progress.turn,
                go_on,
            ),
            final(self).max_rounds == old(self).max_rounds,
            final(self).max_seconds == old(self).max_seconds,
            final(self).checkpoint == old(self).checkpoint,
    {
        if go_on {
            let found = match self.granted.get(session) {
                Some(g) => Some(*g),
                None => None,
            };
            let grant = match found {
                Some((turn, extra)) => (turn, extra.saturating_add(self.max_rounds)),
                None => (progress.turn, self.max_rounds),
            };
            self.granted.insert(lit(session), grant);
            self.deadline(progress)
        } else if cancelled {
            Some(StopReason::Cancelled)
        } else {
            Some(StopReason::MaxRounds)
        }
    }

    /// What follows from the answer, a JSON text.
    pub fn answered(
        &mut self,
        session: &str,
        progress: &TurnProgress,
        answer: &str,
        cancelled: bool,
    ) -> (stop: Option<StopReason>)
        ensures
            stop == after_asking(
                old(self).max_seconds,
                *progress,
                goes_on(answer@),
                cancelled,
            ),
            final(self).granted@ == grants_after_asking(
                old(self).max_rounds,
                old(self).granted@,
                session@,
                progress.turn,
                goes_on(answer@),
            ),
            final(self).max_rounds == old(self).max_rounds,
            final(self).max_seconds == old(self).max_seconds,
            final(self).checkpoint == old(self).checkpoint,
    {
        let go_on = match json::read(answer) {
            Ok(j) => match j.bool_at("continue") {
                Some(b) => b,
                None => false,
            },
            Err(_) => false,
        };
        self.asked(session, progress, go_on, cancelled)
    }
}

/// Zero rounds is no limit: such a budget never stops a turn for its round count.
pub proof fn law_zero_is_unlimited(
    max_seconds: u64,
    granted: Map<Seq<char>, (u64, u32)>,
    session: Seq<char>,
    p: TurnProgress,
)
    ensures
        fused(0, max_seconds, p) != Some(StopReason::MaxRounds),
        cap_step(0, max_seconds, granted, session, p) is Verdict,
{
}

/// A positive budget stops a turn that would go on at exactly that many rounds, and
/// not before.
pub proof fn law_budget_is_inclusive(max_rounds: u32, p: TurnProgress)
    requires
        max_rounds > 0,
        p.continuing,
    ensures
        fused(max_rounds, 0, p) == (if p.rounds >= max_rounds {
            Some(StopReason::MaxRounds)
        } else {
            None
        }),
{
}

/// A deadline holds with the round budget switched off.
pub proof fn law_deadline_stands_alone(max_seconds: u64, p: TurnProgress)
    requires
        max_seconds > 0,
        p.continuing,
        p.elapsed_secs >= max_seconds,
    ensures
        fused(0, max_seconds, p) == Some(StopReason::StoppedByPolicy),
{
}

/// Going on extends the budget of that turn by another base budget. It is worth
/// nothing to any other turn, nor to another session.
pub proof fn law_grant_is_for_this_turn(
    max_rounds: u32,
    granted: Map<Seq<char>, (u64, u32)>,
    session: Seq<char>,
    turn: u64,
)
    ensures
        ({
            let now = current_grants(granted, session, turn);
            let then = extended(max_rounds, now, session, turn);
            &&& budget(max_rounds, then, session, turn) == plus(
                budget(max_rounds, granted, session, turn),
                max_rounds,
            )
            &&& forall|t: u64|
                t != turn ==> #[trigger] budget(max_rounds, then, session, t) == max_rounds
            &&& forall|s: Seq<char>, t: u64|
                s != session ==> #[trigger] budget(max_rounds, then, s, t) == budget(
                    max_rounds,
                    granted,
                    s,
                    t,
                )
        }),
{
}

// ---- provider retry -------------------------------------------------------

pub fn default_attempts() -> (n: u32)
    ensures
        n == 3,
{
    3
}

pub fn default_backoff() -> (ms: u64)
    ensures
        ms == 3000,
{
    3000
}

pub fn default_cap() -> (ms: u64)
    ensures
        ms == 30_000,
{
    30_000
}

/// The shortest a server's hint may hold a retry, in milliseconds: zero would spin.
pub const RETRY_AFTER_FLOOR: u64 = 1000;

/// The longest a server's hint may hold a retry, in milliseconds.
pub const RETRY_AFTER_CAP: u64 = 60_000;

/// The most often the first wait is doubled.
pub const MOST_DOUBLINGS: u32 = 20;

/// `base` doubled `n` times.
pub open spec fn doubled(base: nat, n: nat) -> nat
    decreases n,
{
    if n == 0 {
        base
    } else {
        2 * doubled(base, (n - 1) as nat)
    }
}

pub open spec fn doublings(attempt: u32) -> nat {
    if attempt == 0 {
        0
    } else if attempt - 1 > MOST_DOUBLINGS {
        MOST_DOUBLINGS as nat
    } else {
        (attempt - 1) as nat
    }
}

/// How long to wait before retry number `attempt`, counted from one, in milliseconds.
pub open spec fn backoff(attempt: u32, base: u64, cap: u64, hint: Option<u64>) -> u64 {
    match hint {
        Some(h) => if h < RETRY_AFTER_FLOOR {
            RETRY_AFTER_FLOOR
        } else if h > RETRY_AFTER_CAP {
            RETRY_AFTER_CAP
        } else {
            h
        },
        None => if doubled(base as nat, doublings(attempt)) > cap {
            cap
        } else {
            doubled(base as nat, doublings(attempt)) as u64
        },
    }
}

proof fn lemma_doubled_grows(base: nat, m: nat, n: nat)
    requires
        m <= n,
    ensures
        doubled(base, m) <= doubled(base, n),
    decreases n,
{
    if m < n {
        lemma_doubled_grows(base, m, (n - 1) as nat);
    }
}

/// How long to wait before retry number `attempt`, counted from one. A server's hint
/// is taken, within bounds; without one the wait doubles from `base_ms` up to
/// `cap_ms`.
pub fn retry_backoff(
    attempt: u32,
    base_ms: u64,
    cap_ms: u64,
    retry_after_ms: Option<u64>,
) -> (ms: u64)
    ensures
        ms == backoff(attempt, base_ms, cap_ms, retry_after_ms),
{
    match retry_after_ms {
        Some(hint) => {
            if hint < RETRY_AFTER_FLOOR {
                RETRY_AFTER_FLOOR
            } else if hint > RETRY_AFTER_CAP {
                RETRY_AFTER_CAP
            } else {
                hint
            }
        },
        None => {
            let mut n: u32 = attempt.saturating_sub(1);
            if n > MOST_DOUBLINGS {
                n = MOST_DOUBLINGS;
            }
            let mut wait: u128 = base_ms as u128;
            let mut i: u32 = 0;
            while i < n
                invariant
                    i <= n,
                    n == doublings(attempt),
                    wait == doubled(base_ms as nat, i as nat),
                    backoff(attempt, base_ms, cap_ms, None) == (if doubled(
                        base_ms as nat,
                        n as nat,
                    ) > cap_ms {
                        cap_ms
                    } else {
                        doubled(base_ms as nat, n as nat) as u64
                    }),
                    retry_after_ms is None,
                decreases n - i,
            {
                if wait > cap_ms as u128 {
                    proof {
                        lemma_doubled_grows(base_ms as nat, i as nat, n as nat);
                    }
                    return cap_ms;
                }
                wait = wait * 2;
                i = i + 1;
            }
            if wait > cap_ms as u128 {
                cap_ms
            } else {
                wait as u64
            }
        },
    }
}

/// Whether sending the same request again could help. A rate limit and an overflow
/// have handlers of their own, and an empty answer to a nudge is an answer.
pub open spec fn worth_retrying(e: RequestErrorView, answering_a_nudge: bool) -> bool {
    &&& !e.fatal
    &&& !(e.empty_response && answering_a_nudge)
    &&& e.retryable || e.empty_response
    &&& !e.rate_limited
    &&& !e.context_overflow
}

pub open spec fn retry_notice(message: Seq<char>, ms: u64, attempt: u32, attempts: u32) -> Seq<
    char,
> {
    message + "; retrying in "@ + text::decimal((ms / 1000) as nat) + "s ("@ + text::decimal(
        attempt as nat,
    ) + "/"@ + text::decimal(
        if attempts == 0 {
            0
        } else {
            (attempts - 1) as nat
        },
    ) + ")"@
}

/// Retrying a transient failure.
#[derive(Clone, Copy, Debug, PartialEq, Eq, Structural)]
pub struct Retry {
    pub attempts: u32,
    pub base_ms: u64,
    pub cap_ms: u64,
}

pub open spec fn retried(
    r: Retry,
    attempt: u32,
    e: RequestErrorView,
    answering_a_nudge: bool,
) -> RetryingView {
    if attempt >= r.attempts || !worth_retrying(e, answering_a_nudge) {
        RetryingView::GiveUp
    } else {
        let ms = backoff(attempt, r.base_ms, r.cap_ms, e.retry_after_ms);
        RetryingView::Wait { ms, notice: retry_notice(e.message, ms, attempt, r.attempts) }
    }
}

impl Retry {
    /// What to do after attempt number `attempt` failed.
    pub fn failed(&self, attempt: u32, error: &RequestError, answering_a_nudge: bool) -> (r:
        Retrying)
        ensures
            r.deep_view() == retried(*self, attempt, error.deep_view(), answering_a_nudge),
    {
        let nothing_to_add = error.empty_response && answering_a_nudge;
        let worth = !error.fatal && !nothing_to_add && (error.retryable || error.empty_response)
            && !error.rate_limited && !error.context_overflow;
        if attempt >= self.attempts || !worth {
            Retrying::GiveUp
        } else {
            let ms = retry_backoff(attempt, self.base_ms, self.cap_ms, error.retry_after_ms);
            let notice = error.message.clone().concat("; retrying in ").concat(
                number(ms / 1000).as_str(),
            ).concat("s (").concat(number(attempt as u64).as_str()).concat("/").concat(
                number(self.attempts.saturating_sub(1) as u64).as_str(),
            ).concat(")");
            Retrying::Wait { ms, notice }
        }
    }
}

impl Default for Retry {
    fn default() -> (r: Self)
        ensures
            r == (Retry { attempts: 3, base_ms: 3000, cap_ms: 30_000 }),
    {
        Retry {
            attempts: default_attempts(),
            base_ms: default_backoff(),
            cap_ms: default_cap(),
        }
    }
}

/// The wait never passes its cap, and a hint is held between one second and a minute.
pub proof fn law_backoff_is_bounded(attempt: u32, base: u64, cap: u64, hint: u64)
    ensures
        backoff(attempt, base, cap, None) <= cap,
        1000 <= backoff(attempt, base, cap, Some(hint)) <= 60_000,
        1000 <= hint <= 60_000 ==> backoff(attempt, base, cap, Some(hint)) == hint,
{
}

/// The wait never shrinks from one retry to a later one, and is never shorter than the
/// first, unless the cap is.
pub proof fn law_backoff_grows(a: u32, b: u32, base: u64, cap: u64)
    requires
        a <= b,
    ensures
        backoff(a, base, cap, None) <= backoff(b, base, cap, None),
        base <= cap ==> base <= backoff(a, base, cap, None),
{
    lemma_doubled_grows(base as nat, doublings(a), doublings(b));
    lemma_doubled_grows(base as nat, 0, doublings(a));
}

/// A request is sent at most `attempts` times: the last allowed attempt is never
/// retried, nor is a failure that sending it again could not mend.
pub proof fn law_attempts_are_bounded(
    r: Retry,
    attempt: u32,
    e: RequestErrorView,
    answering_a_nudge: bool,
)
    ensures
        retried(r, attempt, e, answering_a_nudge) is Wait ==> attempt < r.attempts,
        e.fatal || e.rate_limited || e.context_overflow ==> retried(
            r,
            attempt,
            e,
            answering_a_nudge,
        ) is GiveUp,
        e.empty_response && answering_a_nudge ==> retried(r, attempt, e, answering_a_nudge) is GiveUp,
{
}

// ---- compaction by listing ------------------------------------------------

pub fn default_keep() -> (n: u64)
    ensures
        n == 2,
{
    2
}

/// Compaction by listing what happened rather than by asking a model.
#[derive(Clone, Copy, Debug, PartialEq, Eq, Structural)]
pub struct TailCompaction {
    pub keep_turns: u64,
}

pub open spec fn tail_compacted(log: SessionLogView, keep_turns: u64) -> Option<
    CompactionDecisionView,
> {
    match span::settled(log, keep_turns) {
        Some(s) => Some(span::folded(s.through, span::listed(s))),
        None => None,
    }
}

impl TailCompaction {
    pub fn describe(&self) -> (r: String)
        ensures
            r@ == "keep the last "@ + text::decimal(self.keep_turns as nat)
                + " turn(s), summarize the rest"@,
    {
        lit("keep the last ").concat(number(self.keep_turns).as_str()).concat(
            " turn(s), summarize the rest",
        )
    }

    pub fn compact(&self, log: &SessionLog) -> (r: Option<CompactionDecision>)
        ensures
            r.deep_view() == tail_compacted(log.deep_view(), self.keep_turns),
    {
        match settled_span(log, self.keep_turns) {
            Some(s) => Some(CompactionDecision::fold(s.through, listed_summary(&s))),
            None => None,
        }
    }
}

/// The prompt tokens the provider last reported; zero before the first report.
pub open spec fn last_prompt(events: Seq<LoggedEventView>) -> u32
    decreases events.len(),
{
    if events.len() == 0 {
        0
    } else {
        match events.last().event {
            SessionEventView::Usage { usage, .. } => usage.prompt,
            _ => last_prompt(events.drop_last()),
        }
    }
}

pub fn last_prompt_tokens(log: &SessionLog) -> (n: u32)
    ensures
        n == last_prompt(log.deep_view().events),
{
    let ghost all = log.events.deep_view();
    let mut i: usize = log.events.len();
    assert(all.take(i as int) =~= all);
    while i > 0
        invariant
            i <= log.events.len(),
            all == log.events.deep_view(),
            last_prompt(all) == last_prompt(all.take(i as int)),
        decreases i,
    {
        assert(all.take(i as int).drop_last() =~= all.take(i - 1));
        assert(all.take(i as int).last() == log.events@[i - 1].deep_view());
        match &log.events[i - 1].event {
            SessionEvent::Usage { usage, .. } => {
                return usage.prompt;
            },
            _ => {},
        }
        i = i - 1;
    }
    0
}

pub open spec fn leads(m: MessageView) -> bool {
    m.role is System && !m.synthetic
}

/// How many messages stand before the first that is not a system message of the
/// person's own.
pub open spec fn leading(messages: Seq<MessageView>) -> nat
    decreases messages.len(),
{
    if messages.len() == 0 || !leads(messages[0]) {
        0
    } else {
        1 + leading(messages.skip(1))
    }
}

proof fn lemma_leading(messages: Seq<MessageView>, k: int)
    requires
        0 <= k <= messages.len(),
        forall|i: int| 0 <= i < k ==> leads(#[trigger] messages[i]),
        k < messages.len() ==> !leads(messages[k]),
    ensures
        leading(messages) == k,
    decreases messages.len(),
{
    if k > 0 {
        assert(leads(messages[0]));
        let rest = messages.skip(1);
        assert forall|i: int| 0 <= i < k - 1 implies leads(#[trigger] rest[i]) by {
            assert(rest[i] == messages[i + 1]);
        }
        lemma_leading(rest, k - 1);
    }
}

/// The request after a compaction: the leading system messages it had, then what the
/// log now derives.
pub open spec fn reprojected(messages: Seq<MessageView>, derived: Seq<MessageView>) -> Seq<
    MessageView,
> {
    messages.take(leading(messages) as int) + derived
}

pub fn reproject(messages: &Vec<Message>, derived: Vec<Message>) -> (out: Vec<Message>)
    ensures
        out.deep_view() == reprojected(messages.deep_view(), derived.deep_view()),
{
    let ghost all = messages.deep_view();
    let mut out: Vec<Message> = none_of();
    let mut i: usize = 0;
    assert(out.deep_view() =~= all.take(0));
    while i < messages.len() && messages[i].role == Role::System && !messages[i].synthetic
        invariant
            i <= messages.len(),
            all == messages.deep_view(),
            out.deep_view() == all.take(i as int),
            forall|k: int| 0 <= k < i ==> leads(#[trigger] all[k]),
        decreases messages.len() - i,
    {
        put(&mut out, messages[i].clone());
        assert(out.deep_view() =~= all.take(i + 1));
        assert(all[i as int] == messages@[i as int].deep_view());
        i = i + 1;
    }
    proof {
        if i < all.len() {
            assert(all[i as int] == messages@[i as int].deep_view());
        }
        lemma_leading(all, i as int);
    }
    put_all(&mut out, derived);
    out
}

// ---- the same call, the same result ---------------------------------------

pub fn default_warn() -> (n: u32)
    ensures
        n == 3,
{
    3
}

pub fn default_stop() -> (n: u32)
    ensures
        n == 4,
{
    4
}

/// A call and what it returned.
pub open spec fn loop_key(call: ToolCallView, content: Seq<char>) -> Seq<char> {
    call.name + "::"@ + call.arguments + "=>"@ + content
}

/// Warns, then stops, when the same call keeps returning the same result.
pub struct ToolLoopGuard {
    warn_after: u32,
    stop_after: u32,
    last: Option<(String, u32)>,
    tripped: bool,
}

/// What a [`ToolLoopGuard`] remembers.
#[verifier::ext_equal]
pub struct GuardView {
    pub warn_after: u32,
    pub stop_after: u32,
    /// The last call with its result, and how often in a row it came.
    pub last: Option<(Seq<char>, u32)>,
    pub tripped: bool,
}

pub open spec fn repeats(g: GuardView, key: Seq<char>) -> u32 {
    match g.last {
        Some((k, n)) => if k == key {
            plus(n, 1)
        } else {
            1
        },
        None => 1,
    }
}

pub open spec fn stop_message(name: Seq<char>, count: u32) -> Seq<char> {
    "[tool-loop guard] `"@ + name + "` returned the same result "@ + text::decimal(count as nat)
        + " times. Stopping: repeating it will not make progress."@
}

pub open spec fn warn_message(count: u32) -> Seq<char> {
    "\n\n[tool-loop guard] This is call "@ + text::decimal(count as nat)
        + " with the same arguments and the same result. Change approach rather than repeating it."@
}

/// The result the model sees.
pub open spec fn guarded(g: GuardView, call: ToolCallView, r: ToolResultView) -> ToolResultView {
    let count = repeats(g, loop_key(call, r.content));
    if count >= g.stop_after {
        ToolResultView { content: stop_message(call.name, count), is_error: true, ..r }
    } else if count >= g.warn_after {
        ToolResultView { content: r.content + warn_message(count), ..r }
    } else {
        r
    }
}

/// What the guard remembers afterwards.
pub open spec fn after_guarding(g: GuardView, call: ToolCallView, r: ToolResultView) -> GuardView {
    let key = loop_key(call, r.content);
    GuardView {
        last: Some((key, repeats(g, key))),
        tripped: g.tripped || repeats(g, key) >= g.stop_after,
        ..g
    }
}

impl View for ToolLoopGuard {
    type V = GuardView;

    closed spec fn view(&self) -> GuardView {
        GuardView {
            warn_after: self.warn_after,
            stop_after: self.stop_after,
            last: self.last.deep_view(),
            tripped: self.tripped,
        }
    }
}

/// Whether the guard ends the turn; one that did starts over.
pub open spec fn guard_stop(g: GuardView) -> (GuardView, Option<StopReason>) {
    if g.tripped {
        (GuardView { last: None, tripped: false, ..g }, Some(StopReason::ToolLoopDetected))
    } else {
        (g, None)
    }
}

impl ToolLoopGuard {
    /// Warning has to come before stopping.
    pub fn new(warn_after: u32, stop_after: u32) -> (r: Result<Self, String>)
        ensures
            r matches Ok(g) ==> warn_after < stop_after && g@ == (GuardView {
                warn_after,
                stop_after,
                last: None,
                tripped: false,
            }),
            r matches Err(e) ==> warn_after >= stop_after && e@
                == "warn_after must be lower than stop_after"@,
    {
        if warn_after >= stop_after {
            return Err(lit("warn_after must be lower than stop_after"));
        }
        Ok(ToolLoopGuard { warn_after, stop_after, last: None, tripped: false })
    }

    /// Sees one call and its result, and hands on the result the model is to see.
    pub fn observe(&mut self, call: &ToolCall, result: ToolResult) -> (r: ToolResult)
        ensures
            r.deep_view() == guarded(old(self)@, call.deep_view(), result.deep_view()),
            final(self)@ == after_guarding(old(self)@, call.deep_view(), result.deep_view()),
    {
        let key = call.name.clone().concat("::").concat(call.arguments.as_str()).concat(
            "=>",
        ).concat(result.content.as_str());
        let count: u32 = match &self.last {
            Some(entry) => {
                if same(entry.0.as_str(), key.as_str()) {
                    entry.1.saturating_add(1)
                } else {
                    1
                }
            },
            None => 1,
        };
        assert(count == repeats(old(self)@, key@));
        self.last = Some((key, count));
        let mut result = result;
        if count >= self.stop_after {
            self.tripped = true;
            result.is_error = true;
            result.content = lit("[tool-loop guard] `").concat(call.name.as_str()).concat(
                "` returned the same result ",
            ).concat(number(count as u64).as_str()).concat(
                " times. Stopping: repeating it will not make progress.",
            );
        } else if count >= self.warn_after {
            let note = lit("\n\n[tool-loop guard] This is call ").concat(
                number(count as u64).as_str(),
            ).concat(
                " with the same arguments and the same result. Change approach rather than repeating it.",
            );
            result.content = result.content.concat(note.as_str());
        }
        result
    }

    /// Whether the turn is to stop. A guard that stopped one starts over.
    pub fn stopping(&mut self) -> (stop: Option<StopReason>)
        ensures
            (final(self)@, stop) == guard_stop(old(self)@),
    {
        if self.tripped {
            self.tripped = false;
            self.last = None;
            Some(StopReason::ToolLoopDetected)
        } else {
            None
        }
    }
}

/// Only consecutive repetition counts: a call that came out differently in between
/// starts the count again.
pub proof fn law_progress_resets_the_guard(
    g: GuardView,
    call: ToolCallView,
    r: ToolResultView,
    other: ToolCallView,
    o: ToolResultView,
)
    requires
        loop_key(other, o.content) != loop_key(call, r.content),
    ensures
        repeats(after_guarding(g, other, o), loop_key(call, r.content)) == 1,
{
}

// ---- the same calls, whatever they returned -------------------------------

pub const REPEAT_NUDGE: &'static str = "You have issued the SAME tool call with the SAME arguments several rounds in a row. Stop repeating it and change your approach. If you are trying to ask the user something, do not print it with a shell command — end your turn with a plain-text question. If the task is done, reply with a short summary and no tool calls. If you are blocked, say what you need.";

pub fn default_nudge_at() -> (n: u32)
    ensures
        n == 3,
{
    3
}

pub fn default_stop_at() -> (n: u32)
    ensures
        n == 6,
{
    6
}

/// A call without its id: a repeat commonly comes under a fresh one.
pub open spec fn call_key(c: ToolCallView) -> Seq<char> {
    c.name + "\u{0}"@ + c.arguments
}

pub open spec fn call_keys(calls: Seq<ToolCallView>) -> Seq<Seq<char>> {
    Seq::new(calls.len(), |i: int| call_key(calls[i]))
}

pub open spec fn signature(calls: Seq<ToolCallView>) -> Seq<char> {
    text::joined(order::sorted(call_keys(calls)), "\u{1}"@)
}

/// The signature of one round's calls, whatever their order.
pub fn round_signature(calls: &Vec<ToolCall>) -> (r: String)
    ensures
        r@ == signature(calls.deep_view()),
{
    let ghost all = call_keys(calls.deep_view());
    let mut keys: Vec<String> = none_of();
    let mut i: usize = 0;
    assert(keys.deep_view() =~= all.take(0));
    while i < calls.len()
        invariant
            i <= calls.len(),
            all == call_keys(calls.deep_view()),
            keys.deep_view() == all.take(i as int),
        decreases calls.len() - i,
    {
        put(
            &mut keys,
            calls[i].name.clone().concat("\u{0}").concat(calls[i].arguments.as_str()),
        );
        assert(keys.deep_view() =~= all.take(i + 1));
        i = i + 1;
    }
    assert(all.take(i as int) =~= all);
    join(&sort(&keys), "\u{1}")
}

/// Nudges, then stops, when the same calls repeat regardless of what they return.
pub struct RepeatFuse {
    nudge_at: u32,
    stop_at: u32,
    signature: String,
    rounds: u32,
    nudged: bool,
}

/// What a [`RepeatFuse`] remembers.
#[verifier::ext_equal]
pub struct FuseView {
    pub nudge_at: u32,
    pub stop_at: u32,
    /// The last round's calls, and for how many rounds they have been the same.
    pub signature: Seq<char>,
    pub rounds: u32,
    pub nudged: bool,
}

impl View for RepeatFuse {
    type V = FuseView;

    closed spec fn view(&self) -> FuseView {
        FuseView {
            nudge_at: self.nudge_at,
            stop_at: self.stop_at,
            signature: self.signature@,
            rounds: self.rounds,
            nudged: self.nudged,
        }
    }
}

/// The count once a round's calls are seen; a round without calls is the model talking.
pub open spec fn counted(f: FuseView, calls: Seq<ToolCallView>) -> FuseView {
    if calls.len() == 0 {
        f
    } else if f.signature == signature(calls) {
        FuseView { rounds: plus(f.rounds, 1), ..f }
    } else {
        FuseView { signature: signature(calls), rounds: 1, nudged: false, ..f }
    }
}

pub open spec fn nudges(f: FuseView, calls: Seq<ToolCallView>) -> bool {
    calls.len() > 0 && counted(f, calls).rounds >= f.nudge_at && !counted(f, calls).nudged
}

pub open spec fn after_round(f: FuseView, calls: Seq<ToolCallView>) -> FuseView {
    FuseView { nudged: counted(f, calls).nudged || nudges(f, calls), ..counted(f, calls) }
}

pub open spec fn nudge_fact(turn: u64) -> SessionEventView {
    SessionEventView::Injected {
        turn,
        text: REPEAT_NUDGE@,
        origin: InjectionOriginView::Continuation,
    }
}

/// Whether the fuse ends the turn; one that did starts over.
pub open spec fn fuse_stop(f: FuseView) -> (FuseView, Option<StopReason>) {
    if f.rounds >= f.stop_at {
        (
            FuseView { signature: Seq::empty(), rounds: 0, nudged: false, ..f },
            Some(StopReason::ToolLoopDetected),
        )
    } else {
        (f, None)
    }
}

impl RepeatFuse {
    /// The nudge has to come before the stop.
    pub fn new(nudge_at: u32, stop_at: u32) -> (r: Result<Self, String>)
        ensures
            r matches Ok(f) ==> nudge_at < stop_at && f@ == (FuseView {
                nudge_at,
                stop_at,
                signature: Seq::empty(),
                rounds: 0,
                nudged: false,
            }),
            r matches Err(e) ==> nudge_at >= stop_at && e@
                == "nudge_at must be lower than stop_at"@,
    {
        if nudge_at >= stop_at {
            return Err(lit("nudge_at must be lower than stop_at"));
        }
        Ok(RepeatFuse { nudge_at, stop_at, signature: String::new(), rounds: 0, nudged: false })
    }

    /// Sees one round's calls. The fact to log once they ran, where the session is
    /// known: the nudge, at most once per repetition.
    pub fn round(&mut self, calls: &Vec<ToolCall>, turn: Option<u64>) -> (fact: Option<
        SessionEvent,
    >)
        ensures
            fact.deep_view() == (match turn {
                Some(t) => if nudges(old(self)@, calls.deep_view()) {
                    Some(nudge_fact(t))
                } else {
                    None
                },
                None => None,
            }),
            final(self)@ == after_round(old(self)@, calls.deep_view()),
    {
        if calls.len() == 0 {
            return None;
        }
        let now = round_signature(calls);
        if same(self.signature.as_str(), now.as_str()) {
            self.rounds = self.rounds.saturating_add(1);
        } else {
            self.signature = now;
            self.rounds = 1;
            self.nudged = false;
        }
        assert(self@ == counted(old(self)@, calls.deep_view()));
        if self.rounds >= self.nudge_at && !self.nudged {
            self.nudged = true;
            match turn {
                Some(t) => Some(
                    SessionEvent::Injected {
                        turn: t,
                        text: lit(REPEAT_NUDGE),
                        origin: InjectionOrigin::Continuation,
                    },
                ),
                None => None,
            }
        } else {
            None
        }
    }

    /// Whether the turn is to stop. A fuse that stopped one starts over.
    pub fn stopping(&mut self) -> (stop: Option<StopReason>)
        ensures
            (final(self)@, stop) == fuse_stop(old(self)@),
    {
        if self.rounds >= self.stop_at {
            self.signature = String::new();
            self.rounds = 0;
            self.nudged = false;
            Some(StopReason::ToolLoopDetected)
        } else {
            None
        }
    }
}

/// The signature does not depend on the order of the calls, nor on their ids.
pub proof fn law_signature_ignores_order_and_ids(a: Seq<ToolCallView>, b: Seq<ToolCallView>)
    requires
        call_keys(a).to_multiset() == call_keys(b).to_multiset(),
    ensures
        signature(a) == signature(b),
{
    order::law_order_does_not_matter(call_keys(a), call_keys(b));
}

/// The same calls without end are nudged about once and only once, before anything
/// else changes.
pub proof fn law_nudged_once(f: FuseView, calls: Seq<ToolCallView>)
    requires
        nudges(f, calls),
    ensures
        !nudges(after_round(f, calls), calls),
{
}

/// A round without calls is not a repeat of anything.
pub proof fn law_talking_is_not_repeating(f: FuseView)
    ensures
        after_round(f, Seq::empty()) == f,
        !nudges(f, Seq::empty()),
{
}

} // verus!

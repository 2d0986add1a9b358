//! An exchange with a model: what it sent is put together whole, what failed is tried
//! again only where that can help, and every way of trying again comes to an end.
use crate::events::{LoggedEventView, SessionEventView, StopReason, ToolCallView, ToolResultView};
use crate::loop_policy;
use crate::loop_policy::{CapStepView, FuseView, GuardView, Retry, RetryingView};
use crate::message::MessageView;
use crate::recovery;
use crate::recovery::{
    LadderedView, LimitedView, OverflowLadder, RateLimit, Recovering, RecoveryView, StreamRecovery,
};
use crate::span::CompactionDecisionView;
use crate::stream;
use crate::text;
use crate::truncation;
use crate::truncation::OnTruncation;
use crate::turn::{ModelResponseView, RequestErrorView, StreamEventView, TurnProgress};
use vstd::prelude::*;

verus! {

// ---- a stream -------------------------------------------------------------

pub open spec fn said_in(e: StreamEventView) -> Option<Seq<char>> {
    match e {
        StreamEventView::TextDelta(t) => Some(t),
        _ => None,
    }
}

pub open spec fn thought_in(e: StreamEventView) -> Option<Seq<char>> {
    match e {
        StreamEventView::Reasoning(t) => Some(t),
        _ => None,
    }
}

pub open spec fn called_in(e: StreamEventView) -> Option<ToolCallView> {
    match e {
        StreamEventView::ToolCall(c) => Some(c),
        _ => None,
    }
}

proof fn lemma_strung_adds(a: Seq<Seq<char>>, t: Seq<char>)
    ensures
        text::strung(a + seq![t]) == text::strung(a) + t,
{
    assert((a + seq![t]).drop_last() =~= a);
    assert((a + seq![t]).last() == t);
}

/// A stream that does not break comes out as everything it held: its words strung
/// together, its reasoning strung together, every call in order, its last count of
/// tokens, and whether it was cut off.
pub proof fn law_a_stream_is_put_together(events: Seq<StreamEventView>, turn: u64, round: u32)
    requires
        forall|i: int| 0 <= i < events.len() ==> !(#[trigger] events[i] is Error),
    ensures
        ({
            let s = stream::streamed(events, turn, round);
            &&& s.error is None
            &&& s.out.text == text::strung(events.filter_map(|e: StreamEventView| said_in(e)))
            &&& s.out.reasoning == text::strung(
                events.filter_map(|e: StreamEventView| thought_in(e)),
            )
            &&& s.out.tool_calls == events.filter_map(|e: StreamEventView| called_in(e))
            &&& events.len() > 0 && events.last() is Usage ==> s.out.usage == Some(
                events.last()->Usage_0,
            )
            &&& events.len() > 0 && events.last() is Done ==> s.out.truncated
                == events.last()->Done_truncated
            &&& events.len() > 0 && !(events.last() is Usage) ==> s.out.usage == stream::streamed(
                events.drop_last(),
                turn,
                round,
            ).out.usage
            &&& events.len() > 0 && !(events.last() is Done) ==> s.out.truncated
                == stream::streamed(events.drop_last(), turn, round).out.truncated
            &&& events.len() == 0 ==> s.out.usage is None && !s.out.truncated
        }),
    decreases events.len(),
{
    let said = |e: StreamEventView| said_in(e);
    let thought = |e: StreamEventView| thought_in(e);
    let called = |e: StreamEventView| called_in(e);
    if events.len() == 0 {
        assert(events.filter_map(said) =~= Seq::empty());
        assert(events.filter_map(thought) =~= Seq::empty());
        assert(events.filter_map(called) =~= Seq::empty());
    } else {
        let front = events.drop_last();
        assert forall|i: int| 0 <= i < front.len() implies !(#[trigger] front[i] is Error) by {
            assert(front[i] == events[i]);
        }
        law_a_stream_is_put_together(front, turn, round);
        let e = events.last();
        assert(!(events[events.len() - 1] is Error));
        match e {
            StreamEventView::TextDelta(t) => {
                lemma_strung_adds(front.filter_map(said), t);
            },
            StreamEventView::Reasoning(t) => {
                lemma_strung_adds(front.filter_map(thought), t);
            },
            StreamEventView::ToolCall(c) => {
                assert(events.filter_map(called) =~= front.filter_map(called).push(c));
            },
            _ => {},
        }
    }
}

/// A stream that breaks fails with what broke it, and with everything that had come
/// before; nothing after it counts.
pub proof fn law_a_broken_stream_keeps_what_came(
    events: Seq<StreamEventView>,
    k: int,
    err: RequestErrorView,
    turn: u64,
    round: u32,
)
    requires
        0 <= k < events.len(),
        events[k] == StreamEventView::Error(err),
        forall|i: int| 0 <= i < k ==> !(#[trigger] events[i] is Error),
    ensures
        ({
            let s = stream::streamed(events, turn, round);
            let before = stream::streamed(events.take(k), turn, round);
            &&& s.error == Some(RequestErrorView { partial: Some(before.out), ..err })
            &&& s.facts == before.facts
        }),
    decreases events.len(),
{
    let front = events.drop_last();
    if k == events.len() - 1 {
        assert(front =~= events.take(k));
        assert forall|i: int| 0 <= i < front.len() implies !(#[trigger] front[i] is Error) by {
            assert(front[i] == events[i]);
        }
        law_a_stream_is_put_together(front, turn, round);
    } else {
        assert forall|i: int| 0 <= i < k implies !(#[trigger] front[i] is Error) by {
            assert(front[i] == events[i]);
        }
        assert(front[k] == events[k]);
        law_a_broken_stream_keeps_what_came(front, k, err, turn, round);
        assert(front.take(k) =~= events.take(k));
    }
}

/// Every piece of a stream is logged as it comes, for the round it comes in.
pub proof fn law_pieces_are_logged_as_they_come(
    events: Seq<StreamEventView>,
    turn: u64,
    round: u32,
)
    requires
        forall|i: int| 0 <= i < events.len() ==> !(#[trigger] events[i] is Error),
    ensures
        stream::streamed(events, turn, round).facts == events.filter_map(
            |e: StreamEventView|
                match e {
                    StreamEventView::TextDelta(t) => Some(
                        SessionEventView::AssistantChunk { turn, round, delta: t, reasoning: false },
                    ),
                    StreamEventView::Reasoning(t) => Some(
                        SessionEventView::AssistantChunk { turn, round, delta: t, reasoning: true },
                    ),
                    _ => None,
                },
        ),
    decreases events.len(),
{
    let piece = |e: StreamEventView|
        match e {
            StreamEventView::TextDelta(t) => Some(
                SessionEventView::AssistantChunk { turn, round, delta: t, reasoning: false },
            ),
            StreamEventView::Reasoning(t) => Some(
                SessionEventView::AssistantChunk { turn, round, delta: t, reasoning: true },
            ),
            _ => None,
        };
    if events.len() == 0 {
        assert(events.filter_map(piece) =~= Seq::empty());
    } else {
        let front = events.drop_last();
        assert forall|i: int| 0 <= i < front.len() implies !(#[trigger] front[i] is Error) by {
            assert(front[i] == events[i]);
        }
        law_a_stream_is_put_together(front, turn, round);
        law_pieces_are_logged_as_they_come(front, turn, round);
        assert(stream::streamed(events, turn, round).facts =~= events.filter_map(piece));
    }
}

/// A response that says nothing and does nothing is no answer, unless it was cut off;
/// any other is taken as it is.
pub proof fn law_an_empty_response_is_no_answer(out: ModelResponseView)
    ensures
        match stream::concluded(out) {
            Ok(r) => r == out && (out.truncated || !text::is_blank(out.text)
                || out.tool_calls.len() > 0),
            Err(e) => !out.truncated && text::is_blank(out.text) && out.tool_calls.len() == 0
                && e.empty_response && e.retryable && !e.fatal,
        },
{
}

/// A stream that fell silent can be tried again, says so by its code, and keeps what
/// came.
pub proof fn law_a_stall_keeps_what_came(out: ModelResponseView, ms: u64)
    ensures
        ({
            let e = stream::stall(out, ms);
            &&& e.retryable && !e.fatal && !e.rate_limited && !e.context_overflow
            &&& e.code == Some(crate::agent_loop::STREAM_IDLE_CODE@)
            &&& e.partial == Some(out)
        }),
{
}

/// Every call of a batch has one result, at its place: what it came to, or a failure
/// under its own id where it never ran.
pub proof fn law_every_call_has_a_result(
    calls: Seq<ToolCallView>,
    ran: Seq<Option<ToolResultView>>,
    i: int,
)
    requires
        0 <= i < calls.len(),
        ran.len() == calls.len(),
    ensures
        stream::batch(calls, ran).len() == calls.len(),
        match ran[i] {
            Some(r) => stream::batch(calls, ran)[i] == r,
            None => stream::batch(calls, ran)[i].is_error && stream::batch(calls, ran)[i].call_id
                == calls[i].id,
        },
{
}

// ---- a response that was cut off ------------------------------------------

/// After `n` responses cut off in a row within a turn.
pub open spec fn after_cuts(t: OnTruncation, turn: u64, n: nat) -> OnTruncation
    decreases n,
{
    if n == 0 {
        t
    } else {
        truncation::after_response(after_cuts(t, turn, (n - 1) as nat), true, Some(turn))
    }
}

/// A response that was cut off is carried on with, so many times a turn: the model is
/// told, the person is told, and the turn goes on with what came. After that the turn
/// ends on what it has. A whole response is not touched.
pub proof fn law_a_cut_response_is_carried_on_with(
    max: u32,
    turn: u64,
    n: nat,
    r: ModelResponseView,
)
    requires
        n < u32::MAX,
    ensures
        ({
            let fresh = OnTruncation { max_continuations: max, turn: None, seen: 0 };
            let (out, facts) = truncation::carried_on(after_cuts(fresh, turn, n), r, Some(turn));
            &&& out == (ModelResponseView { truncated: out.truncated, ..r })
            &&& out.truncated <==> r.truncated && n < max
            &&& !out.truncated ==> facts.len() == 0
            &&& out.truncated ==> facts.len() == 2 && (facts[0] matches SessionEventView::Notice {
                turn: t,
                notice,
                ..
            } && t == turn && notice is OutputTruncated) && (
            facts[1] matches SessionEventView::Injected { turn: t, origin, text } && t == turn
                && origin is Continuation && (text == truncation::TRUNCATED_CALL_COACH@
                <==> r.tool_calls.len() > 0 && !truncation::complete(
                r.tool_calls.last().arguments,
            ) || truncation::TRUNCATED_CALL_COACH@ == truncation::RESUME_NUDGE@))
        }),
        truncation::after_response(
            OnTruncation { max_continuations: max, turn: None, seen: 0 },
            false,
            Some(turn),
        ) == (OnTruncation { max_continuations: max, turn: None, seen: 0 }),
{
    let fresh = OnTruncation { max_continuations: max, turn: None, seen: 0 };
    lemma_after_cuts(fresh, turn, n);
}

proof fn lemma_after_cuts(t: OnTruncation, turn: u64, n: nat)
    requires
        t.turn is None,
        t.seen == 0,
        n < u32::MAX,
    ensures
        ({
            let a = after_cuts(t, turn, n);
            &&& a.max_continuations == t.max_continuations
            &&& n > 0 ==> a.turn == Some(turn) && a.seen == n
            &&& n == 0 ==> a == t
        }),
    decreases n,
{
    if n > 0 {
        lemma_after_cuts(t, turn, (n - 1) as nat);
    }
}

/// The calls that run are the whole ones, in the order they were made.
pub proof fn law_whole_calls_run(calls: Seq<ToolCallView>)
    ensures
        truncation::survivors(calls) == calls.filter(
            |c: ToolCallView| truncation::complete(c.arguments),
        ),
    decreases calls.len(),
{
    reveal(Seq::filter);
    let whole = |c: ToolCallView| truncation::complete(c.arguments);
    if calls.len() == 0 {
        assert(truncation::survivors(calls) =~= calls.filter(whole));
    } else {
        law_whole_calls_run(calls.drop_last());
        assert(truncation::survivors(calls) =~= calls.filter(whole));
    }
}

/// The results of the calls that ran stand behind each other in the order they ran, each
/// at the place of its call, as they were.
pub proof fn law_results_keep_what_they_say(
    calls: Seq<ToolCallView>,
    results: Seq<ToolResultView>,
    i: int,
)
    requires
        calls.len() <= usize::MAX,
        results.len() == truncation::survivors(calls).len(),
        0 <= i < calls.len(),
        truncation::complete(calls[i].arguments),
    ensures
        ({
            let n = calls.take(i).filter(
                |c: ToolCallView| truncation::complete(c.arguments),
            ).len() as int;
            &&& n < results.len()
            &&& truncation::restored(truncation::refusals(calls), results)[i] == results[n]
        }),
{
    truncation::lemma_restored(calls, results);
    assert(results.take(results.len() as int) =~= results);
    let out = truncation::restored(truncation::refusals(calls), results);
    assert(out =~= truncation::interleaved(calls, results));
    law_whole_calls_run(calls.take(i));
    lemma_in_its_place(calls, results, i);
}

proof fn lemma_in_its_place(calls: Seq<ToolCallView>, results: Seq<ToolResultView>, i: int)
    requires
        results.len() == truncation::survivors(calls).len(),
        0 <= i < calls.len(),
        truncation::complete(calls[i].arguments),
    ensures
        truncation::survivors(calls.take(i)).len() < results.len(),
        truncation::interleaved(calls, results).len() == calls.len(),
        truncation::interleaved(calls, results)[i] == results[truncation::survivors(
            calls.take(i),
        ).len() as int],
    decreases calls.len(),
{
    let front = calls.drop_last();
    let less = if truncation::complete(calls.last().arguments) {
        results.drop_last()
    } else {
        results
    };
    lemma_interleaved_len(front, less);
    if i < front.len() {
        assert(front.take(i) =~= calls.take(i));
        assert(front[i] == calls[i]);
        lemma_in_its_place(front, less, i);
    } else {
        assert(calls.take(i) =~= front);
    }
}

proof fn lemma_interleaved_len(calls: Seq<ToolCallView>, results: Seq<ToolResultView>)
    ensures
        truncation::interleaved(calls, results).len() == calls.len(),
    decreases calls.len(),
{
    if calls.len() > 0 {
        lemma_interleaved_len(calls.drop_last(), results.drop_last());
        lemma_interleaved_len(calls.drop_last(), results);
    }
}

// ---- a request that failed ------------------------------------------------

/// The same error, whatever was added to its message.
pub open spec fn same_error(a: RequestErrorView, b: RequestErrorView) -> bool {
    &&& a == (RequestErrorView { message: a.message, ..b })
    &&& b.message.is_prefix_of(a.message)
}

/// A rate limit is waited out where it can be: as long as the provider asked, or as
/// long as is usual where it did not say, so many times, and never longer than is worth
/// waiting. Else the error is handed on as it was.
pub proof fn law_a_rate_limit_is_waited_out(r: RateLimit, waits: u32, e: RequestErrorView)
    ensures
        ({
            let wait = match e.retry_after_ms {
                Some(ms) => ms,
                None => r.fallback_ms,
            };
            match recovery::limited(r, waits, e) {
                LimitedView::Wait { ms, .. } => e.rate_limited && waits < r.max_waits && ms == wait
                    && wait <= r.max_wait_ms,
                LimitedView::Fail { error } => (!e.rate_limited || waits >= r.max_waits || wait
                    > r.max_wait_ms) && same_error(error, e),
            }
        }),
{
    match recovery::limited(r, waits, e) {
        LimitedView::Fail { error } => {
            assert(e.message =~= error.message.take(e.message.len() as int));
        },
        _ => {},
    }
}

/// An overflow is answered by folding the conversation and asking anew, so many times,
/// where something can fold it and there is something to fold; the fold that was decided
/// on is what the log gets. Else the error is handed on.
pub proof fn law_an_overflow_is_folded_away(
    l: OverflowLadder,
    attempt: u32,
    e: RequestErrorView,
    mounted: bool,
    decision: Option<CompactionDecisionView>,
    turn: u64,
)
    ensures
        match recovery::climbed(l, attempt, e, mounted, decision, turn) {
            LadderedView::Retry { facts } => {
                &&& e.context_overflow && attempt < l.max_attempts && mounted
                &&& facts.len() == 2
                &&& decision matches Some(d) && facts[0] == (SessionEventView::Compacted {
                    turn,
                    through: d.through,
                    summary: d.summary,
                    from: d.from,
                })
                &&& facts[1] matches SessionEventView::Notice { turn: t, notice, .. } && t == turn
                    && notice is OverflowCompacted
            },
            LadderedView::Fail { error } => {
                &&& !e.context_overflow || attempt >= l.max_attempts || !mounted
                    || decision is None
                &&& same_error(error, e)
            },
        },
{
    match recovery::climbed(l, attempt, e, mounted, decision, turn) {
        LadderedView::Fail { error } => {
            assert(e.message =~= error.message.take(e.message.len() as int));
        },
        _ => {},
    }
}

/// A failure that may pass is tried again, so many times; one that never will, one that
/// another layer handles, and a nudge that got no answer are not.
pub proof fn law_what_may_pass_is_tried_again(
    r: Retry,
    attempt: u32,
    e: RequestErrorView,
    answering_a_nudge: bool,
)
    ensures
        loop_policy::retried(r, attempt, e, answering_a_nudge) is Wait <==> {
            &&& attempt < r.attempts
            &&& e.retryable || e.empty_response
            &&& !e.fatal && !e.rate_limited && !e.context_overflow
            &&& !(e.empty_response && answering_a_nudge)
        },
        loop_policy::retried(r, attempt, e, answering_a_nudge) matches RetryingView::Wait {
            ms,
            notice,
        } ==> ms == loop_policy::backoff(attempt, r.base_ms, r.cap_ms, e.retry_after_ms)
            && e.message.is_prefix_of(notice),
{
    match loop_policy::retried(r, attempt, e, answering_a_nudge) {
        RetryingView::Wait { notice, .. } => {
            assert(e.message =~= notice.take(e.message.len() as int));
        },
        _ => {},
    }
}

/// Each wait is twice the one before, up to the ceiling.
pub proof fn law_waits_double(attempt: u32, base: u64, cap: u64)
    requires
        1 <= attempt < 21,
    ensures
        ({
            let a = loop_policy::backoff(attempt, base, cap, None) as int;
            let b = loop_policy::backoff((attempt + 1) as u32, base, cap, None) as int;
            b == if 2 * a > cap {
                cap as int
            } else {
                2 * a
            }
        }),
        loop_policy::backoff(1, base, cap, None) == (if base > cap {
            cap
        } else {
            base
        }),
{
    reveal_with_fuel(loop_policy::doubled, 2);
    let n = (attempt - 1) as nat;
    assert(loop_policy::doubled(base as nat, n + 1) == 2 * loop_policy::doubled(base as nat, n));
}

/// What is done about a failure is done by the layer it belongs to, and what no layer
/// can help is handed on as it was.
pub proof fn law_a_failure_is_handed_on_whole(
    s: Recovering,
    e: RequestErrorView,
    answering_a_nudge: bool,
)
    ensures
        match recovery::recovering(s, e, answering_a_nudge).1 {
            RecoveryView::Again { kind, ms, .. } => {
                ||| kind is ProviderRetry && s.attempt < s.retry.attempts && !e.fatal
                    && !e.rate_limited && !e.context_overflow && ms == loop_policy::backoff(
                    s.attempt,
                    s.retry.base_ms,
                    s.retry.cap_ms,
                    e.retry_after_ms,
                )
                ||| kind is RateLimited && e.rate_limited && s.waits < s.limit.max_waits
            },
            RecoveryView::Compact { error } => error == e && e.context_overflow && s.rungs
                < s.ladder.max_attempts,
            RecoveryView::Anew { .. } => false,
            RecoveryView::Fail { error } => same_error(error, e),
        },
        e.fatal && !e.rate_limited && !e.context_overflow ==> recovery::recovering(
            s,
            e,
            answering_a_nudge,
        ).1 == (RecoveryView::Fail { error: e }),
        e.retryable && !e.fatal && !e.empty_response && !e.rate_limited && !e.context_overflow
            && s.attempt < s.retry.attempts ==> recovery::recovering(
            s,
            e,
            answering_a_nudge,
        ).1 is Again,
        e.rate_limited && !e.context_overflow && s.waits < s.limit.max_waits && recovery::wait_of(
            s.limit,
            e,
        ) <= s.limit.max_wait_ms ==> recovery::recovering(s, e, answering_a_nudge).1 is Again,
{
    law_what_may_pass_is_tried_again(s.retry, s.attempt, e, answering_a_nudge);
    law_a_rate_limit_is_waited_out(s.limit, s.waits, e);
    assert(e.message.is_prefix_of(e.message));
}

/// What is left of a request's tries.
pub open spec fn tries_left(s: Recovering) -> (int, int, int) {
    (
        s.limit.max_waits - s.waits,
        s.ladder.max_attempts - s.rungs,
        s.retry.attempts - s.attempt,
    )
}

/// Fewer tries are left.
pub open spec fn fewer(a: (int, int, int), b: (int, int, int)) -> bool {
    ||| 0 <= a.0 < b.0
    ||| a.0 == b.0 && 0 <= a.1 < b.1
    ||| a.0 == b.0 && a.1 == b.1 && 0 <= a.2 < b.2
}

/// Trying again comes to an end: whatever a request fails with, each further try uses
/// one up.
pub proof fn law_trying_again_ends(
    s: Recovering,
    e: RequestErrorView,
    answering_a_nudge: bool,
    mounted: bool,
    decision: Option<CompactionDecisionView>,
    turn: u64,
)
    ensures
        ({
            let (t, r) = recovery::recovering(s, e, answering_a_nudge);
            &&& r is Again ==> fewer(tries_left(t), tries_left(s))
            &&& r is Compact || r is Fail ==> t == s
        }),
        ({
            let (t, r) = recovery::shrunk(s, e, mounted, decision, turn);
            &&& r is Again || r is Anew ==> fewer(tries_left(t), tries_left(s))
            &&& r is Fail ==> t == s
            &&& !(r is Compact)
        }),
{
}

/// A stream that broke is gone on with where it had said something and the turn may
/// recover once more: what it said is kept as said in that round, without its calls, and
/// the model and the person are told.
pub proof fn law_a_broken_stream_is_gone_on_with(
    r: StreamRecovery,
    partial: Option<ModelResponseView>,
    turn: Option<u64>,
    round: u32,
)
    ensures
        ({
            let (after, facts) = recovery::broken(r, partial, turn, round);
            &&& facts is Some <==> partial is Some && turn is Some && recovery::nth_break(r, turn)
                <= r.max_recoveries
            &&& partial is None ==> after == r
            &&& partial is Some && r.turn == turn && r.used < u32::MAX ==> after.used == r.used + 1
            &&& partial is Some ==> after.turn == turn
            &&& facts matches Some(f) ==> {
                &&& f.len() == 3
                &&& f[0] == (SessionEventView::AssistantMessage {
                    turn: turn->0,
                    round,
                    text: partial->0.text,
                    reasoning: partial->0.reasoning,
                    tool_calls: Seq::empty(),
                    meta: None,
                })
                &&& f[1] matches SessionEventView::Injected { turn: t, origin, .. } && Some(t)
                    == turn && origin is Continuation
                &&& f[2] matches SessionEventView::Notice { turn: t, notice, .. } && Some(t)
                    == turn && notice is StreamRecovered
            }
        }),
{
}

/// Cleaning a response's reasoning touches nothing else, and reasoning without filler
/// only loses the white space around it.
pub proof fn law_only_filler_is_cleaned(r: ModelResponseView)
    ensures
        recovery::filtered(r) == (ModelResponseView {
            reasoning: recovery::filtered(r).reasoning,
            ..r
        }),
        (forall|i: int|
            0 <= i < recovery::filler().len() ==> text::place_of(
                r.reasoning,
                #[trigger] recovery::filler()[i],
            ) is None) && r.reasoning.len() > 0 ==> recovery::filtered(r).reasoning
            == text::trimmed(r.reasoning),
{
    let s = r.reasoning;
    let f = recovery::filler();
    if (forall|i: int|
        0 <= i < f.len() ==> text::place_of(s, #[trigger] f[i]) is None) && s.len() > 0 {
        assert(f.len() == 5);
        lemma_without(s, f[0]);
        lemma_without(s, f[1]);
        lemma_without(s, f[2]);
        lemma_without(s, f[3]);
        lemma_without(s, f[4]);
    }
}

proof fn lemma_without(s: Seq<char>, t: Seq<char>)
    requires
        text::place_of(s, t) is None,
    ensures
        recovery::without(s, t) == s,
{
    assert(text::pieces_by(s, t) =~= seq![s]);
    assert(text::joined(seq![s], ""@) == s);
}

/// A request that took too long may be tried again, and says how long it took.
pub proof fn law_an_overdue_request_may_be_tried_again(limit_secs: u64)
    ensures
        ({
            let e = recovery::overdue(limit_secs);
            &&& e.retryable && !e.fatal && !e.rate_limited && !e.context_overflow
                && !e.empty_response
            &&& text::holds(e.message, text::decimal(limit_secs as nat))
        }),
{
    let head = "the model request exceeded "@;
    let n = text::decimal(limit_secs as nat);
    let m = recovery::overdue(limit_secs).message;
    assert(m.subrange(head.len() as int, (head.len() + n.len()) as int) =~= n);
}

// ---- a turn that goes on --------------------------------------------------

/// A turn is stopped by its budget exactly where it would go on and has used it up: its
/// rounds where they are limited, and else its time.
pub proof fn law_a_budget_stops_what_would_go_on(
    max_rounds: u32,
    max_seconds: u64,
    p: TurnProgress,
)
    ensures
        ({
            let rounds = max_rounds > 0 && p.rounds >= max_rounds;
            let time = max_seconds > 0 && p.elapsed_secs >= max_seconds;
            let stop = loop_policy::fused(max_rounds, max_seconds, p);
            &&& !p.continuing ==> stop is None
            &&& p.continuing && rounds ==> stop == Some(StopReason::MaxRounds)
            &&& p.continuing && !rounds && time ==> stop == Some(StopReason::StoppedByPolicy)
            &&& p.continuing && !rounds && !time ==> stop is None
        }),
{
}

/// A person is asked when the rounds are used up, those they granted in this turn
/// included; a yes grants as many again, and anything else ends the turn.
pub proof fn law_a_person_can_grant_more(
    max_rounds: u32,
    max_seconds: u64,
    granted: Map<Seq<char>, (u64, u32)>,
    session: Seq<char>,
    p: TurnProgress,
    cancelled: bool,
)
    requires
        max_rounds > 0,
        p.continuing,
    ensures
        ({
            let cap = loop_policy::budget(max_rounds, granted, session, p.turn);
            match loop_policy::cap_step(max_rounds, max_seconds, granted, session, p) {
                CapStepView::Ask { cap: said, .. } => p.rounds >= cap && said == cap,
                CapStepView::Verdict { stop } => p.rounds < cap && stop == (if max_seconds > 0
                    && p.elapsed_secs >= max_seconds {
                    Some(StopReason::StoppedByPolicy)
                } else {
                    None
                }),
            }
        }),
        !granted.dom().contains(session) ==> loop_policy::budget(
            max_rounds,
            granted,
            session,
            p.turn,
        ) == max_rounds,
        loop_policy::after_asking(max_seconds, p, false, true) == Some(StopReason::Cancelled),
        loop_policy::after_asking(max_seconds, p, false, false) == Some(StopReason::MaxRounds),
        loop_policy::after_asking(0, p, true, cancelled) is None,
        loop_policy::grants_after_asking(max_rounds, granted, session, p.turn, false) == granted,
        ({
            let now = loop_policy::current_grants(granted, session, p.turn);
            let then = loop_policy::grants_after_asking(max_rounds, now, session, p.turn, true);
            let before = loop_policy::budget(max_rounds, granted, session, p.turn);
            before + max_rounds <= u32::MAX ==> loop_policy::budget(
                max_rounds,
                then,
                session,
                p.turn,
            ) == before + max_rounds
        }),
{
    loop_policy::law_grant_is_for_this_turn(max_rounds, granted, session, p.turn);
}

/// After the same call has come to the same result `n` times in a row.
pub open spec fn observed(g: GuardView, call: ToolCallView, r: ToolResultView, n: nat) -> GuardView
    decreases n,
{
    if n == 0 {
        g
    } else {
        loop_policy::after_guarding(observed(g, call, r, (n - 1) as nat), call, r)
    }
}

proof fn lemma_observed(g: GuardView, call: ToolCallView, r: ToolResultView, n: nat)
    requires
        g.last is None,
        n < u32::MAX,
        !g.tripped,
    ensures
        ({
            let a = observed(g, call, r, n);
            &&& a.warn_after == g.warn_after && a.stop_after == g.stop_after
            &&& n == 0 ==> a == g
            &&& n > 0 ==> a.last == Some((loop_policy::loop_key(call, r.content), n as u32))
            &&& a.tripped <==> n > 0 && n >= g.stop_after
        }),
    decreases n,
{
    if n > 0 {
        lemma_observed(g, call, r, (n - 1) as nat);
    }
}

/// A call that keeps coming to the same result is let through, then warned about, then
/// stopped, at the counts that were set; until then its result is its own, and the turn
/// ends only once it was stopped.
pub proof fn law_a_loop_is_warned_and_stopped(
    g: GuardView,
    call: ToolCallView,
    r: ToolResultView,
    n: nat,
)
    requires
        g.last is None,
        !g.tripped,
        g.warn_after < g.stop_after,
        1 <= n < u32::MAX,
    ensures
        ({
            let before = observed(g, call, r, (n - 1) as nat);
            let out = loop_policy::guarded(before, call, r);
            let stop = loop_policy::guard_stop(observed(g, call, r, n)).1;
            &&& n < g.warn_after ==> out == r
            &&& g.warn_after <= n < g.stop_after ==> r.content.is_prefix_of(out.content)
                && out.content.len() > r.content.len() && out.is_error == r.is_error
            &&& n >= g.stop_after ==> out.is_error && text::holds(out.content, call.name)
            &&& out.call_id == r.call_id
            &&& stop is Some <==> n >= g.stop_after
            &&& stop matches Some(s) ==> s is ToolLoopDetected
            &&& loop_policy::guard_stop(loop_policy::guard_stop(observed(g, call, r, n)).0).1
                is None
        }),
{
    lemma_observed(g, call, r, (n - 1) as nat);
    lemma_observed(g, call, r, n);
    let before = observed(g, call, r, (n - 1) as nat);
    let out = loop_policy::guarded(before, call, r);
    if n >= g.stop_after {
        let head = "[tool-loop guard] `"@;
        assert(out.content.subrange(head.len() as int, (head.len() + call.name.len()) as int)
            =~= call.name);
    } else if n >= g.warn_after {
        assert(r.content =~= out.content.take(r.content.len() as int));
        reveal_strlit("\\n\\n[tool-loop guard] This is call ");
    }
}

/// After `n` rounds with the same calls in a row.
pub open spec fn repeated(f: FuseView, calls: Seq<ToolCallView>, n: nat) -> FuseView
    decreases n,
{
    if n == 0 {
        f
    } else {
        loop_policy::after_round(repeated(f, calls, (n - 1) as nat), calls)
    }
}

proof fn lemma_repeated(f: FuseView, calls: Seq<ToolCallView>, n: nat)
    requires
        f.signature != loop_policy::signature(calls),
        calls.len() > 0,
        n < u32::MAX,
        f.nudge_at >= 1,
    ensures
        ({
            let a = repeated(f, calls, n);
            &&& a.nudge_at == f.nudge_at && a.stop_at == f.stop_at
            &&& n > 0 ==> a.signature == loop_policy::signature(calls) && a.rounds == n
                && a.nudged == (n >= f.nudge_at)
            &&& n == 0 ==> a == f
        }),
    decreases n,
{
    if n > 0 {
        lemma_repeated(f, calls, (n - 1) as nat);
    }
}

/// A turn that repeats the same round is nudged once, when it reaches the count that was
/// set, and stopped when it reaches the other.
pub proof fn law_a_repeated_round_is_nudged_and_stopped(
    f: FuseView,
    calls: Seq<ToolCallView>,
    n: nat,
)
    requires
        f.signature != loop_policy::signature(calls),
        calls.len() > 0,
        1 <= n < u32::MAX,
        1 <= f.nudge_at < f.stop_at,
    ensures
        loop_policy::nudges(repeated(f, calls, (n - 1) as nat), calls) <==> n == f.nudge_at,
        loop_policy::fuse_stop(repeated(f, calls, n)).1 is Some <==> n >= f.stop_at,
        loop_policy::fuse_stop(repeated(f, calls, n)).1 matches Some(s) ==> s is ToolLoopDetected,
{
    lemma_repeated(f, calls, (n - 1) as nat);
    lemma_repeated(f, calls, n);
}

/// The tokens a session was last at are those of its last count.
pub proof fn law_the_last_count_stands(events: Seq<LoggedEventView>, k: int)
    requires
        0 <= k < events.len(),
        events[k].event is Usage,
        forall|j: int| k < j < events.len() ==> !((#[trigger] events[j]).event is Usage),
    ensures
        events[k].event matches SessionEventView::Usage { usage, .. } && loop_policy::last_prompt(
            events,
        ) == usage.prompt,
    decreases events.len(),
{
    if k < events.len() - 1 {
        let front = events.drop_last();
        assert(!(events[events.len() - 1].event is Usage));
        assert forall|j: int| k < j < front.len() implies !((
        #[trigger] front[j]).event is Usage) by {
            assert(front[j] == events[j]);
        }
        law_the_last_count_stands(front, k);
    }
}

/// A conversation that is put together anew keeps the instructions it began with and
/// takes everything else from the log.
pub proof fn law_the_instructions_stay(
    messages: Seq<MessageView>,
    derived: Seq<MessageView>,
    k: int,
)
    requires
        0 <= k <= messages.len(),
        forall|i: int|
            0 <= i < k ==> (#[trigger] messages[i]).role is System && !messages[i].synthetic,
        k < messages.len() ==> !(messages[k].role is System) || messages[k].synthetic,
    ensures
        loop_policy::reprojected(messages, derived) == messages.take(k) + derived,
{
    lemma_leading(messages, k);
}

proof fn lemma_leading(messages: Seq<MessageView>, k: int)
    requires
        0 <= k <= messages.len(),
        forall|i: int|
            0 <= i < k ==> (#[trigger] messages[i]).role is System && !messages[i].synthetic,
        k < messages.len() ==> !(messages[k].role is System) || messages[k].synthetic,
    ensures
        loop_policy::leading(messages) == k,
    decreases messages.len(),
{
    if k > 0 {
        let rest = messages.skip(1);
        assert(messages[0].role is System && !messages[0].synthetic);
        assert forall|i: int| 0 <= i < k - 1 implies (#[trigger] rest[i]).role is System
            && !rest[i].synthetic by {
            assert(rest[i] == messages[i + 1]);
        }
        lemma_leading(rest, k - 1);
    }
}

} // verus!

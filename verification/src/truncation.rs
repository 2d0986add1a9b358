//! What to do when the model is cut off at its output limit.
//!
//! Cut-off text is resumed with a nudge. A call whose arguments were cut off is
//! refused: what was recorded of it is unsafe to run.
use crate::data::{none_of, put};
use crate::events::{
    InjectionOrigin, InjectionOriginView, NoticeKind, SessionEvent, SessionEventView, ToolCall,
    ToolCallView, ToolResult, ToolResultView,
};
use crate::text;
use crate::text::{chars_of, lit, number, trim};
use crate::turn::{ModelResponse, ModelResponseView};
use vstd::prelude::*;

verus! {

pub const RESUME_NUDGE: &'static str = "Output limit hit — your last response was cut off before finishing. If the task is already complete, reply with a short summary and stop (no tool calls). Otherwise resume where you left off, writing the remaining content INCREMENTALLY to a file (append the next section with `edit_file`) rather than re-emitting it all in one response.";

pub const TRUNCATED_CALL_COACH: &'static str = "Tool call not executed: the response hit its output-token limit before the arguments finished streaming, so the recorded arguments are truncated and unsafe to run. Do NOT retry by re-emitting the same large payload — split the work into smaller calls (for write_file / edit_file: write the first chunk, then append the rest with successive edit_file calls).";

/// How often a turn may be continued before the nudging itself becomes the loop.
pub fn default_max() -> (n: u32)
    ensures
        n == 4,
{
    4
}

// ---- was it cut off? ------------------------------------------------------

/// Where a reader of JSON stands after some characters.
pub struct Scan {
    /// How many brackets are open.
    pub depth: int,
    pub in_string: bool,
    pub escaped: bool,
}

pub open spec fn scanned(s: Seq<char>) -> Scan
    decreases s.len(),
{
    if s.len() == 0 {
        Scan { depth: 0, in_string: false, escaped: false }
    } else {
        let p = scanned(s.drop_last());
        let c = s.last();
        if p.escaped {
            Scan { escaped: false, ..p }
        } else if c == '\\' && p.in_string {
            Scan { escaped: true, ..p }
        } else if c == '"' {
            Scan { in_string: !p.in_string, ..p }
        } else if (c == '{' || c == '[') && !p.in_string {
            Scan { depth: p.depth + 1, ..p }
        } else if (c == '}' || c == ']') && !p.in_string {
            Scan { depth: p.depth - 1, ..p }
        } else {
            p
        }
    }
}

/// Arguments that finished streaming: every bracket outside a string is closed, and so
/// is every string.
pub open spec fn complete(arguments: Seq<char>) -> bool {
    let end = scanned(text::trimmed(arguments));
    end.depth == 0 && !end.in_string
}

/// Whether a JSON argument text finished streaming. Not whether it is valid.
pub fn looks_complete(arguments: &str) -> (r: bool)
    ensures
        r == complete(arguments@),
{
    let text = chars_of(trim(arguments));
    let ghost all = text@;
    let mut depth: i128 = 0;
    let mut in_string = false;
    let mut escaped = false;
    let mut i: usize = 0;
    assert(all.take(0) =~= Seq::<char>::empty());
    while i < text.len()
        invariant
            i <= text.len(),
            all == text@,
            depth == scanned(all.take(i as int)).depth,
            -(i as int) <= depth <= i,
            in_string == scanned(all.take(i as int)).in_string,
            escaped == scanned(all.take(i as int)).escaped,
        decreases text.len() - i,
    {
        assert(all.take(i + 1).drop_last() =~= all.take(i as int));
        let c = text[i];
        if escaped {
            escaped = false;
        } else if c == '\\' && in_string {
            escaped = true;
        } else if c == '"' {
            in_string = !in_string;
        } else if (c == '{' || c == '[') && !in_string {
            depth = depth + 1;
        } else if (c == '}' || c == ']') && !in_string {
            depth = depth - 1;
        }
        i = i + 1;
    }
    assert(all.take(i as int) =~= all);
    depth == 0 && !in_string
}

// ---- a response that was cut off ------------------------------------------

/// Asks a cut-off model to carry on, so many times a turn.
#[derive(Clone, Copy, Debug, PartialEq, Eq, Structural)]
pub struct OnTruncation {
    pub max_continuations: u32,
    /// The turn whose responses were cut off last.
    pub turn: Option<u64>,
    /// How many were cut off in it.
    pub seen: u32,
}

pub open spec fn one_more(n: u32) -> u32 {
    if n == u32::MAX {
        n
    } else {
        (n + 1) as u32
    }
}

/// Which cut-off response of its turn the next one of `turn` is: the count starts
/// anew with each turn.
pub open spec fn nth_cut(t: OnTruncation, turn: Option<u64>) -> u32 {
    if t.turn == turn {
        one_more(t.seen)
    } else {
        1
    }
}

pub open spec fn cut_a_call(r: ModelResponseView) -> bool {
    r.tool_calls.len() > 0 && !complete(r.tool_calls.last().arguments)
}

pub open spec fn truncation_notice(seen: u32, most: u32) -> Seq<char> {
    "输出被截断，正在请模型接着写（第 "@ + text::decimal(seen as nat) + "/"@ + text::decimal(
        most as nat,
    ) + " 次）"@
}

/// The facts a cut-off response leaves in the log.
pub open spec fn truncation_facts(t: OnTruncation, r: ModelResponseView, turn: u64) -> Seq<
    SessionEventView,
> {
    seq![
        SessionEventView::Notice {
            turn,
            notice: NoticeKind::OutputTruncated,
            detail: truncation_notice(nth_cut(t, Some(turn)), t.max_continuations),
        },
        SessionEventView::Injected {
            turn,
            text: if cut_a_call(r) {
                TRUNCATED_CALL_COACH@
            } else {
                RESUME_NUDGE@
            },
            origin: InjectionOriginView::Continuation,
        },
    ]
}

pub open spec fn after_response(t: OnTruncation, truncated: bool, turn: Option<u64>) -> OnTruncation {
    if truncated {
        OnTruncation { turn, seen: nth_cut(t, turn), ..t }
    } else {
        t
    }
}

/// The response as the turn goes on with it, and what the log is told.
pub open spec fn carried_on(t: OnTruncation, r: ModelResponseView, turn: Option<u64>) -> (
    ModelResponseView,
    Seq<SessionEventView>,
) {
    let again = r.truncated && nth_cut(t, turn) <= t.max_continuations;
    (
        ModelResponseView { truncated: again, ..r },
        match turn {
            Some(n) => if again {
                truncation_facts(t, r, n)
            } else {
                Seq::empty()
            },
            None => Seq::empty(),
        },
    )
}

impl OnTruncation {
    pub fn new(max_continuations: u32) -> (t: Self)
        ensures
            t == (OnTruncation { max_continuations, turn: None, seen: 0 }),
    {
        OnTruncation { max_continuations, turn: None, seen: 0 }
    }

    /// Sees a response, and hands on the one the loop is to see: past the limit it is
    /// no longer marked as cut off, which ends the asking. The facts are to be logged
    /// where the session is known.
    pub fn responded(&mut self, response: ModelResponse, turn: Option<u64>) -> (r: (
        ModelResponse,
        Vec<SessionEvent>,
    ))
        ensures
            *final(self) == after_response(*old(self), response.truncated, turn),
            r.0.deep_view() == carried_on(*old(self), response.deep_view(), turn).0,
            r.1.deep_view() == carried_on(*old(self), response.deep_view(), turn).1,
    {
        let mut facts: Vec<SessionEvent> = none_of();
        let mut response = response;
        if !response.truncated {
            return (response, facts);
        }
        self.seen = if self.turn == turn {
            self.seen.saturating_add(1)
        } else {
            1
        };
        self.turn = turn;
        if self.seen > self.max_continuations {
            response.truncated = false;
            return (response, facts);
        }
        let n = response.tool_calls.len();
        let cut = n > 0 && !looks_complete(response.tool_calls[n - 1].arguments.as_str());
        assert(n > 0 ==> response.deep_view().tool_calls.last()
            == response.tool_calls@[n - 1].deep_view());
        match turn {
            Some(turn) => {
                let detail = lit("输出被截断，正在请模型接着写（第 ").concat(
                    number(self.seen as u64).as_str(),
                ).concat("/").concat(number(self.max_continuations as u64).as_str()).concat(
                    " 次）",
                );
                put(
                    &mut facts,
                    SessionEvent::Notice { turn, notice: NoticeKind::OutputTruncated, detail },
                );
                let text = if cut {
                    lit(TRUNCATED_CALL_COACH)
                } else {
                    lit(RESUME_NUDGE)
                };
                put(
                    &mut facts,
                    SessionEvent::Injected { turn, text, origin: InjectionOrigin::Continuation },
                );
                assert(facts.deep_view() =~= truncation_facts(
                    *old(self),
                    response.deep_view(),
                    turn,
                ));
            },
            None => {},
        }
        (response, facts)
    }
}

/// The limit is a turn's own: whatever happened before, the first response cut off in
/// a turn is carried on with wherever any may be.
pub proof fn law_each_turn_starts_anew(t: OnTruncation, turn: u64)
    requires
        t.turn != Some(turn),
    ensures
        nth_cut(t, Some(turn)) == 1,
        t.max_continuations >= 1 ==> nth_cut(t, Some(turn)) <= t.max_continuations,
{
}

// ---- calls that were cut off ----------------------------------------------

pub open spec fn coached(call_id: Seq<char>) -> ToolResultView {
    ToolResultView {
        call_id,
        content: TRUNCATED_CALL_COACH@,
        is_error: true,
        images: Seq::empty(),
    }
}

/// The calls that may run.
pub open spec fn survivors(calls: Seq<ToolCallView>) -> Seq<ToolCallView>
    decreases calls.len(),
{
    if calls.len() == 0 {
        Seq::empty()
    } else if complete(calls.last().arguments) {
        survivors(calls.drop_last()).push(calls.last())
    } else {
        survivors(calls.drop_last())
    }
}

/// The refusals, each with the place of its call.
pub open spec fn refusals(calls: Seq<ToolCallView>) -> Seq<(usize, ToolResultView)>
    decreases calls.len(),
{
    if calls.len() == 0 {
        Seq::empty()
    } else if complete(calls.last().arguments) {
        refusals(calls.drop_last())
    } else {
        refusals(calls.drop_last()).push(((calls.len() - 1) as usize, coached(calls.last().id)))
    }
}

/// Parts a round into the calls that may run and the refusals of those that may not.
pub fn hold_back(calls: &Vec<ToolCall>) -> (r: (Vec<ToolCall>, Vec<(usize, ToolResult)>))
    ensures
        r.0.deep_view() == survivors(calls.deep_view()),
        r.1.deep_view() == refusals(calls.deep_view()),
{
    let ghost all = calls.deep_view();
    let mut kept: Vec<ToolCall> = none_of();
    let mut refused: Vec<(usize, ToolResult)> = none_of();
    let mut i: usize = 0;
    assert(all.take(0) =~= Seq::<ToolCallView>::empty());
    while i < calls.len()
        invariant
            i <= calls.len(),
            all == calls.deep_view(),
            kept.deep_view() == survivors(all.take(i as int)),
            refused.deep_view() == refusals(all.take(i as int)),
        decreases calls.len() - i,
    {
        assert(all.take(i + 1).drop_last() =~= all.take(i as int));
        assert(all.take(i + 1).last() == calls@[i as int].deep_view());
        if looks_complete(calls[i].arguments.as_str()) {
            put(&mut kept, calls[i].clone());
        } else {
            let result = ToolResult {
                call_id: calls[i].id.clone(),
                content: lit(TRUNCATED_CALL_COACH),
                is_error: true,
                images: none_of(),
            };
            put(&mut refused, (i, result));
        }
        i = i + 1;
    }
    assert(all.take(i as int) =~= all);
    (kept, refused)
}

pub open spec fn least(a: int, b: int) -> int {
    if a <= b {
        a
    } else {
        b
    }
}

/// Refusals put in at the places of their calls, or at the end where there is no such
/// place.
pub open spec fn restored(
    refused: Seq<(usize, ToolResultView)>,
    results: Seq<ToolResultView>,
) -> Seq<ToolResultView>
    decreases refused.len(),
{
    if refused.len() == 0 {
        results
    } else {
        let r = restored(refused.drop_last(), results);
        r.insert(least(refused.last().0 as int, r.len() as int), refused.last().1)
    }
}

/// Puts the refusals back where the model expects them.
pub fn put_back(refused: &Vec<(usize, ToolResult)>, results: Vec<ToolResult>) -> (out: Vec<
    ToolResult,
>)
    ensures
        out.deep_view() == restored(refused.deep_view(), results.deep_view()),
{
    let ghost all = refused.deep_view();
    let ghost start = results.deep_view();
    let mut out = results;
    let mut i: usize = 0;
    assert(all.take(0) =~= Seq::<(usize, ToolResultView)>::empty());
    while i < refused.len()
        invariant
            i <= refused.len(),
            all == refused.deep_view(),
            out.deep_view() == restored(all.take(i as int), start),
        decreases refused.len() - i,
    {
        assert(all.take(i + 1).drop_last() =~= all.take(i as int));
        assert(all.take(i + 1).last() == refused@[i as int].deep_view());
        let ghost before = out.deep_view();
        let at = if refused[i].0 <= out.len() {
            refused[i].0
        } else {
            out.len()
        };
        let result = refused[i].1.clone();
        out.insert(at, result);
        assert(out.deep_view() =~= before.insert(at as int, refused@[i as int].1.deep_view()));
        i = i + 1;
    }
    assert(all.take(i as int) =~= all);
    out
}

/// One result per call, in the order of the calls: its refusal where it was cut off,
/// else the next of the results.
pub open spec fn interleaved(calls: Seq<ToolCallView>, results: Seq<ToolResultView>) -> Seq<
    ToolResultView,
>
    decreases calls.len(),
{
    if calls.len() == 0 {
        Seq::empty()
    } else if complete(calls.last().arguments) {
        interleaved(calls.drop_last(), results.drop_last()).push(results.last())
    } else {
        interleaved(calls.drop_last(), results).push(coached(calls.last().id))
    }
}

pub proof fn lemma_restored(calls: Seq<ToolCallView>, results: Seq<ToolResultView>)
    requires
        survivors(calls).len() <= results.len(),
        calls.len() <= usize::MAX,
    ensures
        interleaved(calls, results.take(survivors(calls).len() as int)).len() == calls.len(),
        restored(refusals(calls), results) == interleaved(
            calls,
            results.take(survivors(calls).len() as int),
        ) + results.skip(survivors(calls).len() as int),
    decreases calls.len(),
{
    let n = survivors(calls).len() as int;
    if calls.len() == 0 {
        assert(results.skip(0) =~= results);
        assert(Seq::<ToolResultView>::empty() + results =~= results);
    } else {
        let front = calls.drop_last();
        lemma_restored(front, results);
        let m = survivors(front).len() as int;
        if complete(calls.last().arguments) {
            assert(results.take(n).drop_last() =~= results.take(m));
            assert(interleaved(front, results.take(m)).push(results[m]) + results.skip(n)
                =~= interleaved(front, results.take(m)) + results.skip(m));
        } else {
            let r = restored(refusals(front), results);
            let at = calls.len() - 1;
            assert(refusals(calls).drop_last() =~= refusals(front));
            assert(r.insert(at, coached(calls.last().id)) =~= interleaved(
                front,
                results.take(m),
            ).push(coached(calls.last().id)) + results.skip(m));
        }
    }
}

proof fn lemma_interleaved(calls: Seq<ToolCallView>, results: Seq<ToolResultView>, i: int)
    requires
        survivors(calls).len() == results.len(),
        0 <= i < calls.len(),
    ensures
        interleaved(calls, results).len() == calls.len(),
        !complete(calls[i].arguments) ==> interleaved(calls, results)[i] == coached(calls[i].id),
        (forall|k: int|
            0 <= k < results.len() ==> (#[trigger] results[k]).call_id == survivors(calls)[k].id)
            ==> interleaved(calls, results)[i].call_id == calls[i].id,
    decreases calls.len(),
{
    let front = calls.drop_last();
    let good = complete(calls.last().arguments);
    let rest = if good {
        results.drop_last()
    } else {
        results
    };
    if front.len() > 0 {
        lemma_interleaved(
            front,
            rest,
            if i < front.len() {
                i
            } else {
                0
            },
        );
    } else {
        assert(interleaved(front, rest).len() == 0);
    }
    assert(interleaved(front, rest).len() == front.len());
    assert(i < front.len() ==> calls[i] == front[i]);
    if forall|k: int|
        0 <= k < results.len() ==> (#[trigger] results[k]).call_id == survivors(calls)[k].id {
        assert forall|k: int| 0 <= k < rest.len() implies (#[trigger] rest[k]).call_id
            == survivors(front)[k].id by {
            assert(rest[k] == results[k]);
            assert(survivors(calls)[k] == survivors(front)[k]);
        }
        if good {
            assert(results[results.len() - 1].call_id == survivors(calls)[results.len() - 1].id);
        }
    }
}

/// A cut-off call never runs, and holding it back costs the others nothing: where each
/// call that ran has its result, in order, the results handed back line up with the
/// calls the model made, and a cut-off one is answered with the refusal.
pub proof fn law_results_line_up(calls: Seq<ToolCallView>, results: Seq<ToolResultView>)
    requires
        calls.len() <= usize::MAX,
        results.len() == survivors(calls).len(),
    ensures
        ({
            let out = restored(refusals(calls), results);
            &&& out.len() == calls.len()
            &&& forall|i: int|
                0 <= i < calls.len() && !complete((#[trigger] calls[i]).arguments) ==> out[i]
                    == coached(calls[i].id)
            &&& (forall|k: int|
                0 <= k < results.len() ==> (#[trigger] results[k]).call_id == survivors(
                    calls,
                )[k].id) ==> forall|i: int|
                0 <= i < calls.len() ==> out[i].call_id == (#[trigger] calls[i]).id
        }),
{
    let out = restored(refusals(calls), results);
    lemma_restored(calls, results);
    assert(results.take(results.len() as int) =~= results);
    assert(out =~= interleaved(calls, results));
    assert forall|i: int| 0 <= i < calls.len() && !complete(
        (#[trigger] calls[i]).arguments,
    ) implies out[i] == coached(calls[i].id) by {
        lemma_interleaved(calls, results, i);
    }
    if forall|k: int|
        0 <= k < results.len() ==> (#[trigger] results[k]).call_id == survivors(calls)[k].id {
        assert forall|i: int| 0 <= i < calls.len() implies out[i].call_id == (
        #[trigger] calls[i]).id by {
            lemma_interleaved(calls, results, i);
        }
    }
}

/// No call that was cut off is among those that run.
pub proof fn law_cut_calls_never_run(calls: Seq<ToolCallView>)
    ensures
        forall|i: int|
            0 <= i < survivors(calls).len() ==> complete(
                (#[trigger] survivors(calls)[i]).arguments,
            ),
    decreases calls.len(),
{
    if calls.len() > 0 {
        let front = calls.drop_last();
        law_cut_calls_never_run(front);
        assert forall|i: int| 0 <= i < survivors(calls).len() implies complete(
            (#[trigger] survivors(calls)[i]).arguments,
        ) by {
            if i < survivors(front).len() {
                assert(survivors(calls)[i] == survivors(front)[i]);
            }
        }
    }
}

} // verus!

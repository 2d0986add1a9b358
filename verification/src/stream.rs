//! Reading one provider stream to its end.
//!
//! Chunks are logged verbatim as they arrive; the finished answer is their sum.
use crate::agent_loop::STREAM_IDLE_CODE;
use crate::data::{none_of, put, Dup};
use crate::events::{SessionEvent, SessionEventView, ToolCall, ToolCallView, ToolResult, ToolResultView};
use crate::text;
use crate::text::{blank, lit, number};
use crate::turn::{
    ModelResponse, ModelResponseView, RequestError, RequestErrorView, StreamEvent, StreamEventView,
};
use vstd::prelude::*;

verus! {

pub open spec fn nothing_yet() -> ModelResponseView {
    ModelResponseView {
        text: Seq::empty(),
        reasoning: Seq::empty(),
        tool_calls: Seq::empty(),
        usage: None,
        truncated: false,
    }
}

/// An error that says `message` and nothing else.
pub open spec fn plain_error(message: Seq<char>) -> RequestErrorView {
    RequestErrorView {
        message,
        retryable: false,
        fatal: false,
        empty_response: false,
        rate_limited: false,
        context_overflow: false,
        code: None,
        retry_after_ms: None,
        rate_limit_pause: None,
        partial: None,
    }
}

impl ModelResponse {
    /// An answer nothing has been said of yet.
    pub fn new() -> (r: Self)
        ensures
            r.deep_view() == nothing_yet(),
    {
        ModelResponse {
            text: String::new(),
            reasoning: String::new(),
            tool_calls: none_of(),
            usage: None,
            truncated: false,
        }
    }
}

impl RequestError {
    /// An error that says `message` and nothing else.
    pub fn message(message: String) -> (r: Self)
        ensures
            r.deep_view() == plain_error(message@),
    {
        RequestError {
            message,
            retryable: false,
            fatal: false,
            empty_response: false,
            rate_limited: false,
            context_overflow: false,
            code: None,
            retry_after_ms: None,
            rate_limit_pause: None,
            partial: None,
        }
    }

    /// The provider answered with neither text nor calls.
    pub fn empty() -> (r: Self)
        ensures
            r.deep_view() == empty_answer(),
    {
        let mut e = RequestError::message(lit("the provider returned an empty response"));
        e.retryable = true;
        e.empty_response = true;
        e
    }
}

pub open spec fn empty_answer() -> RequestErrorView {
    RequestErrorView {
        retryable: true,
        empty_response: true,
        ..plain_error("the provider returned an empty response"@)
    }
}

/// What the answer is after one more event.
pub open spec fn absorbed(out: ModelResponseView, e: StreamEventView) -> ModelResponseView {
    match e {
        StreamEventView::TextDelta(t) => ModelResponseView { text: out.text + t, ..out },
        StreamEventView::Reasoning(t) => ModelResponseView { reasoning: out.reasoning + t, ..out },
        StreamEventView::ToolCall(c) => ModelResponseView {
            tool_calls: out.tool_calls.push(c),
            ..out
        },
        StreamEventView::Usage(u) => ModelResponseView { usage: Some(u), ..out },
        StreamEventView::Done { truncated } => ModelResponseView { truncated, ..out },
        _ => out,
    }
}

/// The fact one event is logged as.
pub open spec fn chunk(turn: u64, round: u32, e: StreamEventView) -> Option<SessionEventView> {
    match e {
        StreamEventView::TextDelta(t) => Some(
            SessionEventView::AssistantChunk { turn, round, delta: t, reasoning: false },
        ),
        StreamEventView::Reasoning(t) => Some(
            SessionEventView::AssistantChunk { turn, round, delta: t, reasoning: true },
        ),
        _ => None,
    }
}

/// The error that ends the stream, carrying what had already been produced.
pub open spec fn failure(out: ModelResponseView, e: StreamEventView) -> Option<RequestErrorView> {
    match e {
        StreamEventView::Error(err) => Some(RequestErrorView { partial: Some(out), ..err }),
        _ => None,
    }
}

/// Takes in one event: the fact to log, and the error where the stream failed.
pub fn absorb(out: &mut ModelResponse, event: StreamEvent, turn: u64, round: u32) -> (r: (
    Option<SessionEvent>,
    Option<RequestError>,
))
    ensures
        final(out).deep_view() == absorbed(old(out).deep_view(), event.deep_view()),
        r.0.deep_view() == chunk(turn, round, event.deep_view()),
        r.1.deep_view() == failure(old(out).deep_view(), event.deep_view()),
{
    match event {
        StreamEvent::TextDelta(t) => {
            out.text.append(t.as_str());
            (Some(SessionEvent::AssistantChunk { turn, round, delta: t, reasoning: false }), None)
        },
        StreamEvent::Reasoning(t) => {
            out.reasoning.append(t.as_str());
            (Some(SessionEvent::AssistantChunk { turn, round, delta: t, reasoning: true }), None)
        },
        StreamEvent::ToolCall(c) => {
            put(&mut out.tool_calls, c);
            (None, None)
        },
        StreamEvent::Usage(u) => {
            out.usage = Some(u);
            (None, None)
        },
        StreamEvent::Error(err) => {
            let mut err = err;
            err.partial = Some(out.dup());
            (None, Some(err))
        },
        StreamEvent::Done { truncated } => {
            out.truncated = truncated;
            (None, None)
        },
        StreamEvent::Other => (None, None),
    }
}

/// What a stream that ran to its end amounts to. One cut off at the output limit is
/// an answer even when it looks empty; any other needs text or a call.
pub open spec fn concluded(out: ModelResponseView) -> Result<ModelResponseView, RequestErrorView> {
    if !out.truncated && text::is_blank(out.text) && out.tool_calls.len() == 0 {
        Err(empty_answer())
    } else {
        Ok(out)
    }
}

pub open spec fn reply_view(r: Result<ModelResponse, RequestError>) -> Result<
    ModelResponseView,
    RequestErrorView,
> {
    match r {
        Ok(m) => Ok(m.deep_view()),
        Err(e) => Err(e.deep_view()),
    }
}

pub fn conclude(out: ModelResponse) -> (r: Result<ModelResponse, RequestError>)
    ensures
        reply_view(r) == concluded(out.deep_view()),
{
    assert(out.deep_view().tool_calls.len() == out.tool_calls.len());
    if !out.truncated && blank(out.text.as_str()) && out.tool_calls.len() == 0 {
        Err(RequestError::empty())
    } else {
        Ok(out)
    }
}

/// The stream went silent for `ms` milliseconds: worth a retry, and carrying what
/// had already streamed.
pub open spec fn stall(out: ModelResponseView, ms: u64) -> RequestErrorView {
    RequestErrorView {
        retryable: true,
        code: Some(STREAM_IDLE_CODE@),
        partial: Some(out),
        ..plain_error(
            "stream idle timeout: no event for "@ + text::decimal(ms as nat) + "ms"@,
        )
    }
}

pub fn stalled(out: ModelResponse, ms: u64) -> (e: RequestError)
    ensures
        e.deep_view() == stall(out.deep_view(), ms),
{
    let mut e = RequestError::message(
        lit("stream idle timeout: no event for ").concat(number(ms).as_str()).concat("ms"),
    );
    e.retryable = true;
    e.code = Some(lit(STREAM_IDLE_CODE));
    e.partial = Some(out);
    e
}

/// Where a stream stands: the answer so far, the facts logged, and the error that
/// ended it.
#[verifier::ext_equal]
pub struct Streamed {
    pub out: ModelResponseView,
    pub facts: Seq<SessionEventView>,
    pub error: Option<RequestErrorView>,
}

/// A stream read in full; what follows an error is never read.
pub open spec fn streamed(events: Seq<StreamEventView>, turn: u64, round: u32) -> Streamed
    decreases events.len(),
{
    if events.len() == 0 {
        Streamed { out: nothing_yet(), facts: Seq::empty(), error: None }
    } else {
        let s = streamed(events.drop_last(), turn, round);
        let e = events.last();
        if s.error is Some {
            s
        } else {
            Streamed {
                out: absorbed(s.out, e),
                facts: match chunk(turn, round, e) {
                    Some(f) => s.facts.push(f),
                    None => s.facts,
                },
                error: failure(s.out, e),
            }
        }
    }
}

/// Drives a whole stream: the facts it logs and how it came back.
pub fn stream_once(events: Vec<StreamEvent>, turn: u64, round: u32) -> (r: (
    Vec<SessionEvent>,
    Result<ModelResponse, RequestError>,
))
    ensures
        ({
            let s = streamed(events.deep_view(), turn, round);
            &&& r.0.deep_view() == s.facts
            &&& reply_view(r.1) == (match s.error {
                Some(e) => Err(e),
                None => concluded(s.out),
            })
        }),
{
    let ghost all = events.deep_view();
    let mut out = ModelResponse::new();
    let mut facts: Vec<SessionEvent> = none_of();
    let mut i: usize = 0;
    assert(all.take(0) =~= Seq::<StreamEventView>::empty());
    while i < events.len()
        invariant
            i <= events.len(),
            all == events.deep_view(),
            streamed(all.take(i as int), turn, round).out == out.deep_view(),
            streamed(all.take(i as int), turn, round).facts == facts.deep_view(),
            streamed(all.take(i as int), turn, round).error is None,
        decreases events.len() - i,
    {
        assert(all.take(i + 1).drop_last() =~= all.take(i as int));
        assert(all.take(i + 1).last() == events@[i as int].deep_view());
        let (fact, error) = absorb(&mut out, events[i].dup(), turn, round);
        match fact {
            Some(f) => put(&mut facts, f),
            None => {},
        }
        match error {
            Some(e) => {
                proof {
                    lemma_error_stays(all, i + 1, turn, round);
                }
                return (facts, Err(e));
            },
            None => {},
        }
        i = i + 1;
    }
    assert(all.take(i as int) =~= all);
    (facts, conclude(out))
}

proof fn lemma_error_stays(events: Seq<StreamEventView>, n: int, turn: u64, round: u32)
    requires
        0 <= n <= events.len(),
        streamed(events.take(n), turn, round).error is Some,
    ensures
        streamed(events, turn, round) == streamed(events.take(n), turn, round),
    decreases events.len() - n,
{
    if n < events.len() {
        assert(events.take(n + 1).drop_last() =~= events.take(n));
        lemma_error_stays(events, n + 1, turn, round);
    } else {
        assert(events.take(n) =~= events);
    }
}

/// The text of the chunks a log holds, spoken or thought.
pub open spec fn chunk_text(facts: Seq<SessionEventView>, thought: bool) -> Seq<char>
    decreases facts.len(),
{
    if facts.len() == 0 {
        Seq::empty()
    } else {
        let before = chunk_text(facts.drop_last(), thought);
        match facts.last() {
            SessionEventView::AssistantChunk { delta, reasoning, .. } => if reasoning == thought {
                before + delta
            } else {
                before
            },
            _ => before,
        }
    }
}

/// The logged chunks add up to the answer: replaying the log reproduces what
/// streamed, spoken and thought alike.
pub proof fn law_chunks_add_up(events: Seq<StreamEventView>, turn: u64, round: u32)
    ensures
        ({
            let s = streamed(events, turn, round);
            &&& chunk_text(s.facts, false) == s.out.text
            &&& chunk_text(s.facts, true) == s.out.reasoning
        }),
    decreases events.len(),
{
    if events.len() > 0 {
        law_chunks_add_up(events.drop_last(), turn, round);
        let s = streamed(events.drop_last(), turn, round);
        let t = streamed(events, turn, round);
        if s.error is None {
            match chunk(turn, round, events.last()) {
                Some(f) => {
                    assert(t.facts.drop_last() =~= s.facts);
                },
                None => {},
            }
        }
    }
}

// ---- one round's calls ----------------------------------------------------

/// A result that only says what went wrong.
pub open spec fn error_of(call_id: Seq<char>, message: Seq<char>) -> ToolResultView {
    ToolResultView { call_id, content: message, is_error: true, images: Seq::empty() }
}

pub fn error_result(call_id: &str, message: &str) -> (r: ToolResult)
    ensures
        r.deep_view() == error_of(call_id@, message@),
{
    ToolResult {
        call_id: lit(call_id),
        content: lit(message),
        is_error: true,
        images: none_of(),
    }
}

/// What each call of a round comes to: its own result where it ran, a refusal where
/// the turn was cancelled before it started.
pub open spec fn batch(
    calls: Seq<ToolCallView>,
    ran: Seq<Option<ToolResultView>>,
) -> Seq<ToolResultView> {
    Seq::new(
        calls.len(),
        |i: int|
            match ran[i] {
                Some(r) => r,
                None => error_of(calls[i].id, "(cancelled before it started)"@),
            },
    )
}

/// The results of a round, one for each call, in the order the calls were asked
/// for. `ran` holds a call's own result, or nothing where it never started.
pub fn batch_results(calls: &Vec<ToolCall>, ran: Vec<Option<ToolResult>>) -> (out: Vec<ToolResult>)
    requires
        ran.len() == calls.len(),
    ensures
        out.deep_view() == batch(calls.deep_view(), ran.deep_view()),
{
    let ghost all = batch(calls.deep_view(), ran.deep_view());
    let mut out: Vec<ToolResult> = none_of();
    let mut i: usize = 0;
    assert(out.deep_view() =~= all.take(0));
    while i < calls.len()
        invariant
            i <= calls.len(),
            ran.len() == calls.len(),
            all == batch(calls.deep_view(), ran.deep_view()),
            out.deep_view() == all.take(i as int),
        decreases calls.len() - i,
    {
        let one = match &ran[i] {
            Some(r) => r.dup(),
            None => error_result(calls[i].id.as_str(), "(cancelled before it started)"),
        };
        put(&mut out, one);
        assert(out.deep_view() =~= all.take(i + 1));
        i = i + 1;
    }
    assert(all.take(i as int) =~= all);
    out
}

} // verus!

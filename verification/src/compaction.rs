//! Compaction written by a model, the first rung of an overflow, and a strategy made
//! for conversations deciding against a log.
use crate::data::{none_of, one_of, put, put_all, Dup};
use crate::events::{
    LoggedEvent, LoggedEventView, RewrittenText, RewrittenTextView, SessionEvent, SessionEventView,
    SessionLog, SessionLogView, ToolCall, ToolCallView,
};
use crate::handle;
use crate::message::{Message, MessageView, Role};
use crate::order;
use crate::order::sort_once;
use crate::protocol::{CompactTrigger, CompactTriggerView};
use crate::span;
use crate::span::{
    listed_summary, settled_span, truncate, CompactedSpan, CompactedSpanView, CompactionDecision,
    CompactionDecisionView,
};
use crate::text;
use crate::text::{lit, number, same, size, trim};
use crate::turn::{StreamEvent, StreamEventView};
use vstd::prelude::*;

verus! {

/// Where a message of a conversation comes from: a fact of the log, a summary that
/// stands in for some, or something made from one.
#[derive(Clone, Copy, Debug, PartialEq, Eq, Structural)]
pub enum Provenance {
    Event(u64),
    Summary(u64),
    Derived(u64),
}

impl DeepView for Provenance {
    type V = Provenance;

    open spec fn deep_view(&self) -> Provenance {
        *self
    }
}

impl Dup for Provenance {
    fn dup(&self) -> (r: Self) {
        *self
    }
}

/// A message, and where it comes from.
#[derive(Debug, PartialEq, Eq)]
pub struct Traced {
    pub message: Message,
    pub source: Provenance,
}

/// What a [`Traced`] holds.
#[verifier::ext_equal]
pub struct TracedView {
    pub message: MessageView,
    pub source: Provenance,
}

impl DeepView for Traced {
    type V = TracedView;

    open spec fn deep_view(&self) -> TracedView {
        TracedView {
            message: self.message.deep_view(),
            source: self.source.deep_view(),
        }
    }
}

impl Dup for Traced {
    fn dup(&self) -> (r: Self) {
        Traced {
            message: self.message.dup(),
            source: self.source.dup(),
        }
    }
}

impl Clone for Traced {
    fn clone(&self) -> (r: Self)
        ensures
            r.deep_view() == self.deep_view(),
    {
        self.dup()
    }
}

/// A tool result long enough to be shown as a stub.
#[derive(Debug, PartialEq, Eq)]
pub struct Stubbing {
    pub seq: u64,
    /// The tool it came from.
    pub tool: String,
    pub text: String,
    pub ok: bool,
}

/// What a [`Stubbing`] holds.
#[verifier::ext_equal]
pub struct StubbingView {
    pub seq: u64,
    pub tool: Seq<char>,
    pub text: Seq<char>,
    pub ok: bool,
}

impl DeepView for Stubbing {
    type V = StubbingView;

    open spec fn deep_view(&self) -> StubbingView {
        StubbingView {
            seq: self.seq.deep_view(),
            tool: self.tool.deep_view(),
            text: self.text.deep_view(),
            ok: self.ok.deep_view(),
        }
    }
}

impl Dup for Stubbing {
    fn dup(&self) -> (r: Self) {
        Stubbing {
            seq: self.seq.dup(),
            tool: self.tool.dup(),
            text: self.text.dup(),
            ok: self.ok.dup(),
        }
    }
}

impl Clone for Stubbing {
    fn clone(&self) -> (r: Self)
        ensures
            r.deep_view() == self.deep_view(),
    {
        self.dup()
    }
}

/// How a compaction written by a model begins.
#[derive(Debug, PartialEq, Eq)]
pub enum Summing {
    /// Decided without a model.
    Decided { decision: CompactionDecision },
    /// There is nothing to fold.
    Nothing,
    /// The model is to be asked with this prompt.
    Ask { span: CompactedSpan, prompt: Vec<Message> },
}

/// What a [`Summing`] holds.
#[verifier::ext_equal]
pub enum SummingView {
    Decided { decision: CompactionDecisionView },
    Nothing,
    Ask { span: CompactedSpanView, prompt: Seq<MessageView> },
}

impl DeepView for Summing {
    type V = SummingView;

    open spec fn deep_view(&self) -> SummingView {
        match self {
            Summing::Decided { decision } => SummingView::Decided {
                decision: decision.deep_view(),
            },
            Summing::Nothing => SummingView::Nothing,
            Summing::Ask { span, prompt } => SummingView::Ask {
                span: span.deep_view(),
                prompt: prompt.deep_view(),
            },
        }
    }
}

impl Dup for Summing {
    fn dup(&self) -> (r: Self) {
        match self {
            Summing::Decided { decision } => Summing::Decided {
                decision: decision.dup(),
            },
            Summing::Nothing => Summing::Nothing,
            Summing::Ask { span, prompt } => Summing::Ask {
                span: span.dup(),
                prompt: prompt.dup(),
            },
        }
    }
}

impl Clone for Summing {
    fn clone(&self) -> (r: Self)
        ensures
            r.deep_view() == self.deep_view(),
    {
        self.dup()
    }
}

/// A conversation as a strategy is shown it.
#[derive(Debug, PartialEq, Eq)]
pub struct Layout {
    pub messages: Vec<Message>,
    pub sources: Vec<Provenance>,
    /// The protected head: through the first real request.
    pub floor: usize,
}

/// What a [`Layout`] holds.
#[verifier::ext_equal]
pub struct LayoutView {
    pub messages: Seq<MessageView>,
    pub sources: Seq<Provenance>,
    pub floor: usize,
}

impl DeepView for Layout {
    type V = LayoutView;

    open spec fn deep_view(&self) -> LayoutView {
        LayoutView {
            messages: self.messages.deep_view(),
            sources: self.sources.deep_view(),
            floor: self.floor.deep_view(),
        }
    }
}

impl Dup for Layout {
    fn dup(&self) -> (r: Self) {
        Layout {
            messages: self.messages.dup(),
            sources: self.sources.dup(),
            floor: self.floor.dup(),
        }
    }
}

impl Clone for Layout {
    fn clone(&self) -> (r: Self)
        ensures
            r.deep_view() == self.deep_view(),
    {
        self.dup()
    }
}

/// What a strategy would do.
#[derive(Debug, PartialEq, Eq)]
pub struct Plan {
    pub drain_from: usize,
    pub drain_to: usize,
    pub summary: Option<String>,
    pub resume_note: Option<String>,
    pub rewrites: Vec<(usize, String)>,
}

/// What a [`Plan`] holds.
#[verifier::ext_equal]
pub struct PlanView {
    pub drain_from: usize,
    pub drain_to: usize,
    pub summary: Option<Seq<char>>,
    pub resume_note: Option<Seq<char>>,
    pub rewrites: Seq<(usize, Seq<char>)>,
}

impl DeepView for Plan {
    type V = PlanView;

    open spec fn deep_view(&self) -> PlanView {
        PlanView {
            drain_from: self.drain_from.deep_view(),
            drain_to: self.drain_to.deep_view(),
            summary: self.summary.deep_view(),
            resume_note: self.resume_note.deep_view(),
            rewrites: self.rewrites.deep_view(),
        }
    }
}

impl Dup for Plan {
    fn dup(&self) -> (r: Self) {
        Plan {
            drain_from: self.drain_from.dup(),
            drain_to: self.drain_to.dup(),
            summary: self.summary.dup(),
            resume_note: self.resume_note.dup(),
            rewrites: self.rewrites.dup(),
        }
    }
}

impl Clone for Plan {
    fn clone(&self) -> (r: Self)
        ensures
            r.deep_view() == self.deep_view(),
    {
        self.dup()
    }
}

/// Where a cut can go.
#[derive(Clone, Copy, Debug, PartialEq, Eq, Structural)]
pub enum CutStep {
    /// Here.
    Keep(u64),
    /// Not here; perhaps there.
    Again(u64),
    Nowhere,
}

// ---- a summary written by a model -----------------------------------------

pub const SUMMARY_SYSTEM: &'static str = "You compress the earlier part of an engineering session into a short handover note for whoever continues it. Keep what a continuation needs: what was asked, decisions made, files and commands that mattered, and anything still unresolved. When the notes open with an earlier summary, update it: keep what is still true and fold in what came after. Drop pleasantries and repetition. Write plainly, in the language of the session, with no preamble and no closing offer to help.";

pub open spec fn user_message(text: Seq<char>) -> MessageView {
    MessageView {
        role: Role::User,
        text,
        reasoning: None,
        tool_calls: Seq::empty(),
        tool_call_id: None,
        is_error: false,
        synthetic: false,
    }
}

impl Message {
    pub fn user(text: String) -> (m: Self)
        ensures
            m.deep_view() == user_message(text@),
    {
        Message {
            role: Role::User,
            text,
            reasoning: None,
            tool_calls: none_of(),
            tool_call_id: None,
            is_error: false,
            synthetic: false,
        }
    }
}

/// The text of a stream.
pub open spec fn spoken(events: Seq<StreamEventView>) -> Seq<char>
    decreases events.len(),
{
    if events.len() == 0 {
        Seq::empty()
    } else {
        match events.last() {
            StreamEventView::TextDelta(t) => spoken(events.drop_last()) + t,
            _ => spoken(events.drop_last()),
        }
    }
}

/// What a utility model wrote: its text without white space around it, unless that is
/// nothing.
pub open spec fn written(events: Seq<StreamEventView>) -> Option<Seq<char>> {
    let t = text::trimmed(spoken(events));
    if t.len() == 0 {
        None
    } else {
        Some(t)
    }
}

pub fn read_stream(events: &Vec<StreamEvent>) -> (r: Option<String>)
    ensures
        r.deep_view() == written(events.deep_view()),
{
    let ghost all = events.deep_view();
    let mut out = String::new();
    let mut i: usize = 0;
    assert(all.take(0) =~= Seq::<StreamEventView>::empty());
    while i < events.len()
        invariant
            i <= events.len(),
            all == events.deep_view(),
            out@ == spoken(all.take(i as int)),
        decreases events.len() - i,
    {
        assert(all.take(i + 1).drop_last() =~= all.take(i as int));
        assert(all.take(i + 1).last() == events@[i as int].deep_view());
        match &events[i] {
            StreamEvent::TextDelta(t) => {
                out.append(t.as_str());
            },
            _ => {},
        }
        i = i + 1;
    }
    assert(all.take(i as int) =~= all);
    let t = trim(out.as_str());
    if t.is_empty() {
        None
    } else {
        Some(lit(t))
    }
}

/// Compaction by a summary a utility model writes, with the listed one as its floor.
#[derive(Clone, Copy, Debug, PartialEq, Eq, Structural)]
pub struct SummarisingCompaction {
    pub keep_turns: u64,
    pub max_tokens: u32,
    pub timeout_secs: u64,
}

impl Default for SummarisingCompaction {
    fn default() -> (r: Self)
        ensures
            r == (SummarisingCompaction { keep_turns: 2, max_tokens: 1024, timeout_secs: 60 }),
    {
        SummarisingCompaction { keep_turns: 2, max_tokens: 1024, timeout_secs: 60 }
    }
}

/// The prompt for a summary of a digest.
pub open spec fn summary_prompt(digest: Seq<char>) -> Seq<MessageView> {
    seq![handle::system_message(SUMMARY_SYSTEM@), user_message(digest)]
}

pub open spec fn begun(
    keep_turns: u64,
    log: SessionLogView,
    stubbed: Option<CompactionDecisionView>,
) -> SummingView {
    match stubbed {
        Some(decision) => SummingView::Decided { decision },
        None => match span::settled(log, keep_turns) {
            Some(s) => SummingView::Ask { span: s, prompt: summary_prompt(span::digested(s)) },
            None => SummingView::Nothing,
        },
    }
}

/// The decision once the model was asked, whatever came of it.
pub open spec fn summarised(s: CompactedSpanView, wrote: Option<Seq<char>>) -> CompactionDecisionView {
    span::folded(
        s.through,
        match wrote {
            Some(w) => "=== EARLIER IN THIS SESSION ===\n"@ + w + "\n"@,
            None => span::listed(s),
        },
    )
}

impl SummarisingCompaction {
    pub fn describe(&self) -> (r: String)
        ensures
            r@ == "keep the last "@ + text::decimal(self.keep_turns as nat)
                + " turn(s), summarize the rest with the utility model"@,
    {
        lit("keep the last ").concat(number(self.keep_turns).as_str()).concat(
            " turn(s), summarize the rest with the utility model",
        )
    }

    /// Whether a compaction would ask the model: one is there, the overflow has no
    /// first rung left, and there is something to fold.
    pub fn calls_model(
        &self,
        has_utility: bool,
        log: &SessionLog,
        stubbed: &Option<CompactionDecision>,
    ) -> (r: bool)
        ensures
            r == (has_utility && begun(
                self.keep_turns,
                log.deep_view(),
                stubbed.deep_view(),
            ) is Ask),
    {
        has_utility && stubbed.is_none() && settled_span(log, self.keep_turns).is_some()
    }

    pub fn begin(&self, log: &SessionLog, stubbed: Option<CompactionDecision>) -> (r: Summing)
        ensures
            r.deep_view() == begun(self.keep_turns, log.deep_view(), stubbed.deep_view()),
    {
        match stubbed {
            Some(decision) => Summing::Decided { decision },
            None => match settled_span(log, self.keep_turns) {
                Some(s) => {
                    let mut prompt = one_of(Message::system(lit(SUMMARY_SYSTEM)));
                    put(&mut prompt, Message::user(s.digest()));
                    assert(prompt.deep_view() =~= summary_prompt(span::digested(s.deep_view())));
                    Summing::Ask { span: s, prompt }
                },
                None => Summing::Nothing,
            },
        }
    }

    pub fn finish(&self, span: &CompactedSpan, wrote: Option<String>) -> (d: CompactionDecision)
        ensures
            d.deep_view() == summarised(span.deep_view(), wrote.deep_view()),
    {
        let summary = match wrote {
            Some(w) => lit("=== EARLIER IN THIS SESSION ===\n").concat(w.as_str()).concat("\n"),
            None => listed_summary(span),
        };
        CompactionDecision::fold(span.through, summary)
    }
}

/// A model that does not help costs the quality of the summary and nothing else: the
/// same span is folded, under the list that needs no model.
pub proof fn law_the_list_is_the_floor(s: CompactedSpanView, wrote: Option<Seq<char>>)
    ensures
        summarised(s, None) == span::folded(s.through, span::listed(s)),
        summarised(s, wrote).through == s.through,
        summarised(s, wrote).from == 0,
{
}

// ---- the first rung of an overflow ----------------------------------------

/// Tool output of at most this many bytes is left as it is.
pub const WORTH_STUBBING: usize = 500;

/// The calls of a conversation, in order.
pub open spec fn all_calls(traced: Seq<TracedView>) -> Seq<ToolCallView>
    decreases traced.len(),
{
    if traced.len() == 0 {
        Seq::empty()
    } else {
        all_calls(traced.drop_last()) + traced.last().message.tool_calls
    }
}

/// The name the last call with this id was made under.
pub open spec fn name_of(calls: Seq<ToolCallView>, id: Seq<char>) -> Option<Seq<char>>
    decreases calls.len(),
{
    if calls.len() == 0 {
        None
    } else if calls.last().id == id {
        Some(calls.last().name)
    } else {
        name_of(calls.drop_last(), id)
    }
}

pub open spec fn tool_of(calls: Seq<ToolCallView>, id: Option<Seq<char>>) -> Seq<char> {
    match id {
        Some(id) => match name_of(calls, id) {
            Some(name) => name,
            None => "tool"@,
        },
        None => "tool"@,
    }
}

/// The results to be shown as stubs: long tool output that is a fact of the log.
pub open spec fn stubbings(calls: Seq<ToolCallView>, traced: Seq<TracedView>) -> Seq<StubbingView>
    decreases traced.len(),
{
    if traced.len() == 0 {
        Seq::empty()
    } else {
        let before = stubbings(calls, traced.drop_last());
        let m = traced.last().message;
        match traced.last().source {
            Provenance::Event(seq) => if m.role is Tool && text::bytes(m.text) > WORTH_STUBBING {
                before.push(
                    StubbingView {
                        seq,
                        tool: tool_of(calls, m.tool_call_id),
                        text: m.text,
                        ok: !m.is_error,
                    },
                )
            } else {
                before
            },
            _ => before,
        }
    }
}

fn gather_calls(traced: &Vec<Traced>) -> (out: Vec<ToolCall>)
    ensures
        out.deep_view() == all_calls(traced.deep_view()),
{
    let ghost all = traced.deep_view();
    let mut out: Vec<ToolCall> = none_of();
    let mut i: usize = 0;
    assert(all.take(0) =~= Seq::<TracedView>::empty());
    while i < traced.len()
        invariant
            i <= traced.len(),
            all == traced.deep_view(),
            out.deep_view() == all_calls(all.take(i as int)),
        decreases traced.len() - i,
    {
        assert(all.take(i + 1).drop_last() =~= all.take(i as int));
        assert(all.take(i + 1).last() == traced@[i as int].deep_view());
        put_all(&mut out, traced[i].message.tool_calls.dup());
        i = i + 1;
    }
    assert(all.take(i as int) =~= all);
    out
}

fn find_tool(calls: &Vec<ToolCall>, id: &Option<String>) -> (r: String)
    ensures
        r@ == tool_of(calls.deep_view(), id.deep_view()),
{
    match id {
        None => lit("tool"),
        Some(wanted) => {
            let ghost all = calls.deep_view();
            let mut i: usize = calls.len();
            assert(all.take(i as int) =~= all);
            while i > 0
                invariant
                    i <= calls.len(),
                    all == calls.deep_view(),
                    id.deep_view() == Some(wanted@),
                    name_of(all, wanted@) == name_of(all.take(i as int), wanted@),
                decreases i,
            {
                assert(all.take(i as int).drop_last() =~= all.take(i - 1));
                assert(all.take(i as int).last() == calls@[i - 1].deep_view());
                if same(calls[i - 1].id.as_str(), wanted.as_str()) {
                    return calls[i - 1].name.clone();
                }
                i = i - 1;
            }
            lit("tool")
        },
    }
}
/// The results to show as stubs, where the conversation no longer fits and there are any.
pub open spec fn stubbed_on(
    traced: Seq<TracedView>,
    trigger: CompactTriggerView,
) -> Option<Seq<StubbingView>> {
    let found = stubbings(all_calls(traced), traced);
    if trigger is Overflow && found.len() > 0 {
        Some(found)
    } else {
        None
    }
}

/// On an overflow, the long tool output to be shown as stubs. None for any other
/// trigger, or where there is none.
pub fn stub_on_overflow(traced: &Vec<Traced>, trigger: &CompactTrigger) -> (r: Option<
    Vec<Stubbing>,
>)
    ensures
        r.deep_view() == stubbed_on(traced.deep_view(), trigger.deep_view()),
{
    match trigger {
        CompactTrigger::Overflow => {},
        _ => return None,
    }
    let calls = gather_calls(traced);
    let ghost names = all_calls(traced.deep_view());
    let ghost all = traced.deep_view();
    let mut out: Vec<Stubbing> = none_of();
    let mut i: usize = 0;
    assert(all.take(0) =~= Seq::<TracedView>::empty());
    while i < traced.len()
        invariant
            i <= traced.len(),
            all == traced.deep_view(),
            names == calls.deep_view(),
            out.deep_view() == stubbings(names, all.take(i as int)),
        decreases traced.len() - i,
    {
        assert(all.take(i + 1).drop_last() =~= all.take(i as int));
        assert(all.take(i + 1).last() == traced@[i as int].deep_view());
        let m = &traced[i].message;
        match traced[i].source {
            Provenance::Event(seq) => {
                if m.role == Role::Tool && size(m.text.as_str()) > WORTH_STUBBING {
                    put(
                        &mut out,
                        Stubbing {
                            seq,
                            tool: find_tool(&calls, &m.tool_call_id),
                            text: m.text.clone(),
                            ok: !m.is_error,
                        },
                    );
                }
            },
            _ => {},
        }
        i = i + 1;
    }
    assert(all.take(i as int) =~= all);
    if out.len() == 0 {
        None
    } else {
        Some(out)
    }
}

pub open spec fn rewritten(found: Seq<StubbingView>, stubs: Seq<Seq<char>>) -> Seq<
    RewrittenTextView,
> {
    Seq::new(found.len(), |i: int| RewrittenTextView { seq: found[i].seq, text: stubs[i] })
}
pub open spec fn stub_decision(
    found: Seq<StubbingView>,
    stubs: Seq<Seq<char>>,
) -> CompactionDecisionView {
    CompactionDecisionView {
        rewrites: rewritten(found, stubs),
        ..span::folded(0, Seq::empty())
    }
}

/// The decision to show each of the results as its stub.
pub fn show_stubs(found: &Vec<Stubbing>, stubs: Vec<String>) -> (d: CompactionDecision)
    requires
        stubs.len() == found.len(),
    ensures
        d.deep_view() == stub_decision(found.deep_view(), stubs.deep_view()),
{
    let ghost all = rewritten(found.deep_view(), stubs.deep_view());
    let mut rewrites: Vec<RewrittenText> = none_of();
    let mut i: usize = 0;
    assert(rewrites.deep_view() =~= all.take(0));
    while i < found.len()
        invariant
            i <= found.len(),
            stubs.len() == found.len(),
            all == rewritten(found.deep_view(), stubs.deep_view()),
            rewrites.deep_view() == all.take(i as int),
        decreases found.len() - i,
    {
        put(&mut rewrites, RewrittenText { seq: found[i].seq, text: stubs[i].clone() });
        assert(rewrites.deep_view() =~= all.take(i + 1));
        i = i + 1;
    }
    assert(all.take(i as int) =~= all);
    CompactionDecision { rewrites, ..CompactionDecision::fold(0, String::new()) }
}

/// A stub is never stubbed: whatever is shown instead, if it is short, it is left as
/// it is next time.
pub proof fn law_short_output_is_left(calls: Seq<ToolCallView>, traced: Seq<TracedView>)
    requires
        forall|i: int|
            0 <= i < traced.len() ==> text::bytes((#[trigger] traced[i]).message.text)
                <= WORTH_STUBBING,
    ensures
        stubbings(calls, traced).len() == 0,
    decreases traced.len(),
{
    if traced.len() > 0 {
        let front = traced.drop_last();
        assert forall|i: int| 0 <= i < front.len() implies text::bytes(
            (#[trigger] front[i]).message.text,
        ) <= WORTH_STUBBING by {
            assert(front[i] == traced[i]);
        }
        law_short_output_is_left(calls, front);
        assert(traced[traced.len() - 1].message == traced.last().message);
    }
}

// ---- a conversation laid out for a strategy -------------------------------

pub open spec fn seq_of(p: Provenance) -> u64 {
    match p {
        Provenance::Event(seq) => seq,
        Provenance::Summary(seq) => seq,
        Provenance::Derived(seq) => seq,
    }
}

impl Provenance {
    pub fn seq(self) -> (n: u64)
        ensures
            n == seq_of(self),
    {
        match self {
            Provenance::Event(seq) => seq,
            Provenance::Summary(seq) => seq,
            Provenance::Derived(seq) => seq,
        }
    }

    pub fn is_summary(self) -> (r: bool)
        ensures
            r == self is Summary,
    {
        match self {
            Provenance::Summary(_) => true,
            _ => false,
        }
    }
}

/// The summaries of a conversation, or everything else of it, in order.
pub open spec fn parted(traced: Seq<TracedView>, summaries: bool) -> Seq<TracedView>
    decreases traced.len(),
{
    if traced.len() == 0 {
        Seq::empty()
    } else if traced.last().source is Summary == summaries {
        parted(traced.drop_last(), summaries).push(traced.last())
    } else {
        parted(traced.drop_last(), summaries)
    }
}

pub open spec fn asks(t: TracedView) -> bool {
    t.message.role is User && !t.message.synthetic
}

/// Where the first real request stands; the length where nothing was ever asked.
pub open spec fn first_request(rest: Seq<TracedView>) -> nat
    decreases rest.len(),
{
    if rest.len() == 0 || asks(rest[0]) {
        0
    } else {
        1 + first_request(rest.skip(1))
    }
}

proof fn lemma_first_request(rest: Seq<TracedView>, k: int)
    requires
        0 <= k <= rest.len(),
        forall|i: int| 0 <= i < k ==> !asks(#[trigger] rest[i]),
        k < rest.len() ==> asks(rest[k]),
    ensures
        first_request(rest) == k,
    decreases rest.len(),
{
    if k > 0 {
        assert(!asks(rest[0]));
        let tail = rest.skip(1);
        assert forall|i: int| 0 <= i < k - 1 implies !asks(#[trigger] tail[i]) by {
            assert(tail[i] == rest[i + 1]);
        }
        lemma_first_request(tail, k - 1);
    }
}

/// Summaries, each as a user's message.
pub open spec fn as_users(summaries: Seq<TracedView>) -> Seq<TracedView> {
    Seq::new(
        summaries.len(),
        |i: int|
            TracedView {
                message: MessageView { role: Role::User, ..summaries[i].message },
                ..summaries[i]
            },
    )
}

/// The conversation with its summaries moved under the first request.
pub open spec fn ordered(traced: Seq<TracedView>) -> Seq<TracedView> {
    let rest = parted(traced, false);
    let head = first_request(rest) + 1;
    rest.take(head as int) + as_users(parted(traced, true)) + rest.skip(head as int)
}

pub open spec fn laid_out(traced: Seq<TracedView>) -> Option<LayoutView> {
    let rest = parted(traced, false);
    if first_request(rest) >= rest.len() {
        None
    } else {
        let o = ordered(traced);
        Some(
            LayoutView {
                messages: Seq::new(o.len(), |i: int| o[i].message),
                sources: Seq::new(o.len(), |i: int| o[i].source),
                floor: (first_request(rest) + 1) as usize,
            },
        )
    }
}

fn part(traced: &Vec<Traced>, summaries: bool) -> (out: Vec<Traced>)
    ensures
        out.deep_view() == parted(traced.deep_view(), summaries),
{
    let ghost all = traced.deep_view();
    let mut out: Vec<Traced> = none_of();
    let mut i: usize = 0;
    assert(all.take(0) =~= Seq::<TracedView>::empty());
    while i < traced.len()
        invariant
            i <= traced.len(),
            all == traced.deep_view(),
            out.deep_view() == parted(all.take(i as int), summaries),
        decreases traced.len() - i,
    {
        assert(all.take(i + 1).drop_last() =~= all.take(i as int));
        assert(all.take(i + 1).last() == traced@[i as int].deep_view());
        if traced[i].source.is_summary() == summaries {
            put(&mut out, traced[i].clone());
        }
        i = i + 1;
    }
    assert(all.take(i as int) =~= all);
    out
}

impl Layout {
    fn lay(&mut self, t: &Traced, role: Role)
        ensures
            final(self).deep_view() == (LayoutView {
                messages: old(self).deep_view().messages.push(
                    MessageView { role, ..t.deep_view().message },
                ),
                sources: old(self).deep_view().sources.push(t.source),
                ..old(self).deep_view()
            }),
    {
        let message = t.message.clone();
        put(&mut self.messages, Message { role, ..message });
        put(&mut self.sources, t.source);
    }

    /// Lays a conversation out the way a strategy looks for it: the first request
    /// protected, the summaries just below it. None where nothing was ever asked.
    pub fn of(traced: &Vec<Traced>) -> (r: Option<Layout>)
        ensures
            r.deep_view() == laid_out(traced.deep_view()),
    {
        let rest = part(traced, false);
        let summaries = part(traced, true);
        let ghost rv = rest.deep_view();
        let ghost sv = summaries.deep_view();
        let mut first: usize = 0;
        while first < rest.len() && !(rest[first].message.role == Role::User
            && !rest[first].message.synthetic)
            invariant
                first <= rest.len(),
                rv == rest.deep_view(),
                forall|i: int| 0 <= i < first ==> !asks(#[trigger] rv[i]),
            decreases rest.len() - first,
        {
            assert(rv[first as int] == rest@[first as int].deep_view());
            first = first + 1;
        }
        proof {
            if first < rv.len() {
                assert(rv[first as int] == rest@[first as int].deep_view());
            }
            lemma_first_request(rv, first as int);
        }
        if first >= rest.len() {
            return None;
        }
        let head = first + 1;
        let ghost o = ordered(traced.deep_view());
        let ghost messages = Seq::new(o.len(), |i: int| o[i].message);
        let ghost sources = Seq::new(o.len(), |i: int| o[i].source);
        let mut out = Layout { messages: none_of(), sources: none_of(), floor: head };
        let mut i: usize = 0;
        assert(out.deep_view().messages =~= messages.take(0));
        assert(out.deep_view().sources =~= sources.take(0));
        while i < head
            invariant
                i <= head <= rest.len(),
                rv == rest.deep_view(),
                o == rv.take(head as int) + as_users(sv) + rv.skip(head as int),
                messages == Seq::new(o.len(), |k: int| o[k].message),
                sources == Seq::new(o.len(), |k: int| o[k].source),
                out.deep_view().floor == head,
                out.deep_view().messages == messages.take(i as int),
                out.deep_view().sources == sources.take(i as int),
            decreases head - i,
        {
            assert(rv[i as int] == rest@[i as int].deep_view());
            let role = rest[i].message.role;
            out.lay(&rest[i], role);
            assert(out.deep_view().messages =~= messages.take(i + 1));
            assert(out.deep_view().sources =~= sources.take(i + 1));
            i = i + 1;
        }
        let mut j: usize = 0;
        while j < summaries.len()
            invariant
                j <= summaries.len(),
                head <= rest.len(),
                rv == rest.deep_view(),
                sv == summaries.deep_view(),
                o == rv.take(head as int) + as_users(sv) + rv.skip(head as int),
                messages == Seq::new(o.len(), |k: int| o[k].message),
                sources == Seq::new(o.len(), |k: int| o[k].source),
                out.deep_view().floor == head,
                out.deep_view().messages == messages.take(head + j),
                out.deep_view().sources == sources.take(head + j),
            decreases summaries.len() - j,
        {
            assert(sv[j as int] == summaries@[j as int].deep_view());
            out.lay(&summaries[j], Role::User);
            assert(o[head + j] == as_users(sv)[j as int]);
            assert(out.deep_view().messages =~= messages.take(head + j + 1));
            assert(out.deep_view().sources =~= sources.take(head + j + 1));
            j = j + 1;
        }
        while i < rest.len()
            invariant
                head <= i <= rest.len(),
                rv == rest.deep_view(),
                o == rv.take(head as int) + as_users(sv) + rv.skip(head as int),
                messages == Seq::new(o.len(), |k: int| o[k].message),
                sources == Seq::new(o.len(), |k: int| o[k].source),
                out.deep_view().floor == head,
                out.deep_view().messages == messages.take(i + sv.len()),
                out.deep_view().sources == sources.take(i + sv.len()),
            decreases rest.len() - i,
        {
            assert(rv[i as int] == rest@[i as int].deep_view());
            let role = rest[i].message.role;
            out.lay(&rest[i], role);
            assert(o[i + sv.len()] == rv[i as int]);
            assert(out.deep_view().messages =~= messages.take(i + sv.len() + 1));
            assert(out.deep_view().sources =~= sources.take(i + sv.len() + 1));
            i = i + 1;
        }
        assert(messages.take(i + sv.len()) =~= messages);
        assert(sources.take(i + sv.len()) =~= sources);
        Some(out)
    }
}

// ---- what the plan comes to -----------------------------------------------

pub open spec fn least(a: int, b: int) -> int {
    if a <= b {
        a
    } else {
        b
    }
}

pub open spec fn most(a: int, b: int) -> int {
    if a >= b {
        a
    } else {
        b
    }
}

/// The messages a plan drains, held to the conversation and below its protected head.
pub open spec fn drained(l: LayoutView, p: PlanView) -> (int, int) {
    let len = l.messages.len() as int;
    let from = least(most(p.drain_from as int, least(l.floor as int, len)), len);
    (from, most(least(p.drain_to as int, len), from))
}

/// The highest sequence number among sources that are not summaries; zero where there
/// is none.
pub open spec fn highest(sources: Seq<Provenance>) -> u64
    decreases sources.len(),
{
    if sources.len() == 0 {
        0
    } else {
        let before = highest(sources.drop_last());
        let last = sources.last();
        if last is Summary || seq_of(last) <= before {
            before
        } else {
            seq_of(last)
        }
    }
}

/// The lowest sequence number among sources that are not summaries.
pub open spec fn lowest(sources: Seq<Provenance>) -> Option<u64>
    decreases sources.len(),
{
    if sources.len() == 0 {
        None
    } else {
        let before = lowest(sources.drop_last());
        let last = sources.last();
        if last is Summary {
            before
        } else {
            match before {
                Some(b) => if b <= seq_of(last) {
                    before
                } else {
                    Some(seq_of(last))
                },
                None => Some(seq_of(last)),
            }
        }
    }
}

pub open spec fn minus_one(n: u64) -> u64 {
    if n == 0 {
        0
    } else {
        (n - 1) as u64
    }
}

/// The facts a drain takes: those after the first number, up to the second.
pub open spec fn reach(l: LayoutView, from: int, to: int, last_seq: u64) -> (u64, u64) {
    (
        highest(l.sources.take(from)),
        match lowest(l.sources.skip(to)) {
            Some(kept) => minus_one(kept),
            None => last_seq,
        },
    )
}

fn find_highest(sources: &Vec<Provenance>, to: usize) -> (n: u64)
    requires
        to <= sources.len(),
    ensures
        n == highest(sources.deep_view().take(to as int)),
{
    let ghost all = sources.deep_view();
    let mut n: u64 = 0;
    let mut i: usize = 0;
    assert(all.take(0) =~= Seq::<Provenance>::empty());
    while i < to
        invariant
            i <= to <= sources.len(),
            all == sources.deep_view(),
            n == highest(all.take(i as int)),
        decreases to - i,
    {
        assert(all.take(i + 1).drop_last() =~= all.take(i as int));
        assert(all.take(i + 1).last() == sources@[i as int]);
        let s = sources[i];
        if !s.is_summary() && s.seq() > n {
            n = s.seq();
        }
        i = i + 1;
    }
    n
}

fn find_lowest(sources: &Vec<Provenance>, from: usize) -> (n: Option<u64>)
    requires
        from <= sources.len(),
    ensures
        n == lowest(sources.deep_view().skip(from as int)),
{
    let ghost all = sources.deep_view().skip(from as int);
    let mut n: Option<u64> = None;
    let mut i: usize = from;
    assert(all.take(0) =~= Seq::<Provenance>::empty());
    while i < sources.len()
        invariant
            from <= i <= sources.len(),
            all == sources.deep_view().skip(from as int),
            n == lowest(all.take(i - from)),
        decreases sources.len() - i,
    {
        assert(all.take(i - from + 1).drop_last() =~= all.take(i - from));
        assert(all.take(i - from + 1).last() == sources@[i as int]);
        let s = sources[i];
        if !s.is_summary() {
            n = match n {
                Some(b) => if b <= s.seq() {
                    Some(b)
                } else {
                    Some(s.seq())
                },
                None => Some(s.seq()),
            };
        }
        i = i + 1;
    }
    assert(all.take(i - from) =~= all);
    n
}

impl Layout {
    /// The messages a plan drains.
    pub fn drain(&self, plan: &Plan) -> (r: (usize, usize))
        ensures
            (r.0 as int, r.1 as int) == drained(self.deep_view(), plan.deep_view()),
    {
        let len = self.messages.len();
        let floor = if self.floor <= len {
            self.floor
        } else {
            len
        };
        let from = if plan.drain_from >= floor {
            plan.drain_from
        } else {
            floor
        };
        let from = if from <= len {
            from
        } else {
            len
        };
        let to = if plan.drain_to <= len {
            plan.drain_to
        } else {
            len
        };
        let to = if to >= from {
            to
        } else {
            from
        };
        (from, to)
    }

    /// The facts the drained messages stand for. `last_seq` is the log's last number.
    pub fn reach(&self, from: usize, to: usize, last_seq: u64) -> (r: (u64, u64))
        requires
            from <= self.sources.len(),
            to <= self.sources.len(),
        ensures
            r == reach(self.deep_view(), from as int, to as int, last_seq),
    {
        let through = match find_lowest(&self.sources, to) {
            Some(kept) => kept.saturating_sub(1),
            None => last_seq,
        };
        (find_highest(&self.sources, from), through)
    }
}

// ---- where a cut can go ---------------------------------------------------

/// The calls made up to and in each message.
pub open spec fn calls_of(messages: Seq<MessageView>) -> Seq<ToolCallView>
    decreases messages.len(),
{
    if messages.len() == 0 {
        Seq::empty()
    } else {
        calls_of(messages.drop_last()) + messages.last().tool_calls
    }
}

pub open spec fn made(calls: Seq<ToolCallView>, id: Seq<char>) -> bool {
    exists|i: int| 0 <= i < calls.len() && (#[trigger] calls[i]).id == id
}

/// The first tool result no message before it made the call for.
pub open spec fn orphan(messages: Seq<MessageView>) -> Option<Seq<char>>
    decreases messages.len(),
{
    if messages.len() == 0 {
        None
    } else {
        match orphan(messages.drop_last()) {
            Some(id) => Some(id),
            None => match (messages.last().role, messages.last().tool_call_id) {
                (Role::Tool, Some(id)) => if made(calls_of(messages), id) {
                    None
                } else {
                    Some(id)
                },
                _ => None,
            },
        }
    }
}

/// The fact that made a call.
pub open spec fn asked_at(events: Seq<LoggedEventView>, id: Seq<char>) -> Option<u64>
    decreases events.len(),
{
    if events.len() == 0 {
        None
    } else {
        match asked_at(events.drop_last(), id) {
            Some(seq) => Some(seq),
            None => match events.last().event {
                SessionEventView::AssistantMessage { tool_calls, .. } => if made(tool_calls, id) {
                    Some(events.last().seq)
                } else {
                    None
                },
                _ => None,
            },
        }
    }
}

/// Whether a cut at `through` leaves no result whose call it removed. `projected` is
/// the conversation such a cut would leave.
pub open spec fn cut(
    events: Seq<LoggedEventView>,
    from: u64,
    through: u64,
    projected: Seq<MessageView>,
) -> CutStep {
    if through <= from {
        CutStep::Nowhere
    } else {
        match orphan(projected) {
            None => CutStep::Keep(through),
            Some(id) => match asked_at(events, id) {
                Some(seq) => CutStep::Again(minus_one(seq)),
                None => CutStep::Nowhere,
            },
        }
    }
}

fn was_made(calls: &Vec<ToolCall>, id: &str) -> (r: bool)
    ensures
        r == made(calls.deep_view(), id@),
{
    let ghost all = calls.deep_view();
    let mut i: usize = 0;
    while i < calls.len()
        invariant
            i <= calls.len(),
            all == calls.deep_view(),
            forall|k: int| 0 <= k < i ==> (#[trigger] all[k]).id != id@,
        decreases calls.len() - i,
    {
        assert(all[i as int] == calls@[i as int].deep_view());
        if same(calls[i].id.as_str(), id) {
            return true;
        }
        i = i + 1;
    }
    false
}

fn find_orphan(messages: &Vec<Message>) -> (r: Option<String>)
    ensures
        r.deep_view() == orphan(messages.deep_view()),
{
    let ghost all = messages.deep_view();
    let mut calls: Vec<ToolCall> = none_of();
    let mut found: Option<String> = None;
    let mut i: usize = 0;
    assert(all.take(0) =~= Seq::<MessageView>::empty());
    while i < messages.len()
        invariant
            i <= messages.len(),
            all == messages.deep_view(),
            calls.deep_view() == calls_of(all.take(i as int)),
            found.deep_view() == orphan(all.take(i as int)),
        decreases messages.len() - i,
    {
        assert(all.take(i + 1).drop_last() =~= all.take(i as int));
        assert(all.take(i + 1).last() == messages@[i as int].deep_view());
        put_all(&mut calls, messages[i].tool_calls.dup());
        assert(calls.deep_view() == calls_of(all.take(i + 1)));
        if found.is_none() {
            match (messages[i].role, &messages[i].tool_call_id) {
                (Role::Tool, Some(id)) => {
                    if !was_made(&calls, id.as_str()) {
                        found = Some(id.clone());
                    }
                },
                _ => {},
            }
        }
        i = i + 1;
    }
    assert(all.take(i as int) =~= all);
    found
}

fn find_asked(events: &Vec<LoggedEvent>, id: &str) -> (r: Option<u64>)
    ensures
        r == asked_at(events.deep_view(), id@),
{
    let ghost all = events.deep_view();
    let mut found: Option<u64> = None;
    let mut i: usize = 0;
    assert(all.take(0) =~= Seq::<LoggedEventView>::empty());
    while i < events.len()
        invariant
            i <= events.len(),
            all == events.deep_view(),
            found == asked_at(all.take(i as int), id@),
        decreases events.len() - i,
    {
        assert(all.take(i + 1).drop_last() =~= all.take(i as int));
        assert(all.take(i + 1).last() == events@[i as int].deep_view());
        if found.is_none() {
            match &events[i].event {
                SessionEvent::AssistantMessage { tool_calls, .. } => {
                    if was_made(tool_calls, id) {
                        found = Some(events[i].seq);
                    }
                },
                _ => {},
            }
        }
        i = i + 1;
    }
    assert(all.take(i as int) =~= all);
    found
}

/// One look at where a cut can go without leaving a result whose call it removed.
pub fn keep_calls_with_results(
    events: &Vec<LoggedEvent>,
    from: u64,
    through: u64,
    projected: &Vec<Message>,
) -> (step: CutStep)
    ensures
        step == cut(events.deep_view(), from, through, projected.deep_view()),
{
    if through <= from {
        return CutStep::Nowhere;
    }
    match find_orphan(projected) {
        None => CutStep::Keep(through),
        Some(id) => match find_asked(events, id.as_str()) {
            Some(seq) => CutStep::Again(seq.saturating_sub(1)),
            None => CutStep::Nowhere,
        },
    }
}

/// A cut that is kept leaves no result without its call, and folds something.
pub proof fn law_no_orphans(
    events: Seq<LoggedEventView>,
    from: u64,
    through: u64,
    projected: Seq<MessageView>,
)
    ensures
        cut(events, from, through, projected) matches CutStep::Keep(t) ==> {
            &&& t == through
            &&& from < t
            &&& forall|i: int|
                0 <= i < projected.len() && (#[trigger] projected[i]).role is Tool
                    && projected[i].tool_call_id is Some ==> made(
                    calls_of(projected.take(i + 1)),
                    projected[i].tool_call_id->0,
                )
        },
{
    if orphan(projected) is None {
        assert forall|i: int|
            0 <= i < projected.len() && (#[trigger] projected[i]).role is Tool
                && projected[i].tool_call_id is Some implies made(
            calls_of(projected.take(i + 1)),
            projected[i].tool_call_id->0,
        ) by {
            lemma_no_orphan_before(projected, i + 1);
            assert(projected.take(i + 1).last() == projected[i]);
        }
    }
}

proof fn lemma_no_orphan_before(messages: Seq<MessageView>, n: int)
    requires
        orphan(messages) is None,
        0 <= n <= messages.len(),
    ensures
        orphan(messages.take(n)) is None,
    decreases messages.len(),
{
    if n == messages.len() {
        assert(messages.take(n) =~= messages);
    } else {
        assert(messages.drop_last().take(n) =~= messages.take(n));
        lemma_no_orphan_before(messages.drop_last(), n);
    }
}

// ---- the log with a decision ----------------------------------------------

pub open spec fn last_seq(events: Seq<LoggedEventView>) -> u64 {
    if events.len() == 0 {
        0
    } else {
        events.last().seq
    }
}

pub open spec fn next_seq(n: u64) -> u64 {
    if n == u64::MAX {
        n
    } else {
        (n + 1) as u64
    }
}

/// The log as it would be with a decision committed.
pub open spec fn with(events: Seq<LoggedEventView>, d: CompactionDecisionView) -> Seq<
    LoggedEventView,
> {
    let shown = if d.rewrites.len() > 0 {
        events.push(
            LoggedEventView {
                seq: next_seq(last_seq(events)),
                event: SessionEventView::MessagesRewritten { turn: 0, texts: d.rewrites },
            },
        )
    } else {
        events
    };
    if d.through != 0 {
        shown.push(
            LoggedEventView {
                seq: next_seq(last_seq(shown)),
                event: SessionEventView::Compacted {
                    turn: 0,
                    through: d.through,
                    summary: d.summary,
                    from: d.from,
                },
            },
        )
    } else {
        shown
    }
}

pub fn with_decision(events: &Vec<LoggedEvent>, d: &CompactionDecision) -> (out: Vec<LoggedEvent>)
    ensures
        out.deep_view() == with(events.deep_view(), d.deep_view()),
{
    let mut out = events.dup();
    let mut seq: u64 = 0;
    if events.len() > 0 {
        seq = events[events.len() - 1].seq;
        assert(events.deep_view().last() == events@[events.len() - 1].deep_view());
    }
    if d.rewrites.len() > 0 {
        seq = seq.saturating_add(1);
        put(
            &mut out,
            LoggedEvent {
                seq,
                event: SessionEvent::MessagesRewritten { turn: 0, texts: d.rewrites.dup() },
            },
        );
    }
    if d.through != 0 {
        seq = seq.saturating_add(1);
        put(
            &mut out,
            LoggedEvent {
                seq,
                event: SessionEvent::Compacted {
                    turn: 0,
                    through: d.through,
                    summary: d.summary.clone(),
                    from: d.from,
                },
            },
        );
    }
    out
}

// ---- the decision ---------------------------------------------------------

/// A span made of messages: notes are what stands for earlier spans, the person's
/// messages are what was asked, and the calls are what was used.
pub open spec fn span_of(through: u64, messages: Seq<MessageView>) -> CompactedSpanView
    decreases messages.len(),
{
    if messages.len() == 0 {
        CompactedSpanView {
            through,
            prior: Seq::empty(),
            prompts: Seq::empty(),
            tools: Seq::empty(),
        }
    } else {
        let s = span_of(through, messages.drop_last());
        let m = messages.last();
        let used = CompactedSpanView { tools: s.tools + span::names_of(m.tool_calls), ..s };
        match m.role {
            Role::System => CompactedSpanView { prior: s.prior.push(m.text), ..used },
            Role::User => if m.synthetic {
                used
            } else {
                CompactedSpanView { prompts: s.prompts.push(span::one_line(m.text, 200)), ..used }
            },
            _ => used,
        }
    }
}

/// What a run of messages comes to, each tool once.
pub open spec fn span_from(through: u64, messages: Seq<MessageView>) -> CompactedSpanView {
    let s = span_of(through, messages);
    CompactedSpanView { tools: order::catalogued(s.tools), ..s }
}

impl CompactedSpan {
    /// The span a run of messages makes.
    pub fn from_messages(through: u64, messages: &Vec<Message>) -> (s: Self)
        ensures
            s.deep_view() == span_from(through, messages.deep_view()),
    {
        let ghost all = messages.deep_view();
        let mut prior: Vec<String> = none_of();
        let mut prompts: Vec<String> = none_of();
        let mut tools: Vec<String> = none_of();
        let mut i: usize = 0;
        assert(all.take(0) =~= Seq::<MessageView>::empty());
        while i < messages.len()
            invariant
                i <= messages.len(),
                all == messages.deep_view(),
                prior.deep_view() == span_of(through, all.take(i as int)).prior,
                prompts.deep_view() == span_of(through, all.take(i as int)).prompts,
                tools.deep_view() == span_of(through, all.take(i as int)).tools,
                span_of(through, all.take(i as int)).through == through,
            decreases messages.len() - i,
        {
            assert(all.take(i + 1).drop_last() =~= all.take(i as int));
            assert(all.take(i + 1).last() == messages@[i as int].deep_view());
            let m = &messages[i];
            span::put_names(&mut tools, &m.tool_calls);
            match m.role {
                Role::System => {
                    put(&mut prior, m.text.clone());
                },
                Role::User => {
                    if !m.synthetic {
                        put(&mut prompts, truncate(m.text.as_str(), 200));
                    }
                },
                _ => {},
            }
            i = i + 1;
        }
        assert(all.take(i as int) =~= all);
        CompactedSpan { through, prior, prompts, tools: sort_once(&tools) }
    }
}

/// The drained messages as they are in the log: a summary is a note there.
pub open spec fn as_logged(l: LayoutView, from: int, to: int) -> Seq<MessageView> {
    Seq::new(
        (to - from) as nat,
        |i: int|
            if l.sources[from + i] is Summary {
                MessageView { role: Role::System, ..l.messages[from + i] }
            } else {
                l.messages[from + i]
            },
    )
}

/// The summary a fold without a written one gets.
pub open spec fn listed_for(l: LayoutView, from: int, to: int, through: u64) -> Seq<char> {
    span::listed(span_from(through, as_logged(l, from, to)))
}

/// The rewrites of a plan that stand: not of the protected head, not of what is
/// drained or folded, and only of facts.
pub open spec fn standing_rewrites(
    l: LayoutView,
    rewrites: Seq<(usize, Seq<char>)>,
    drain: (int, int),
    from: u64,
    through: u64,
) -> Seq<RewrittenTextView>
    decreases rewrites.len(),
{
    if rewrites.len() == 0 {
        Seq::empty()
    } else {
        let before = standing_rewrites(l, rewrites.drop_last(), drain, from, through);
        let (index, text) = rewrites.last();
        if index < least(l.floor as int, l.messages.len() as int) || index >= l.messages.len() || (
        drain.0 <= index && index < drain.1) {
            before
        } else {
            match l.sources[index as int] {
                Provenance::Event(seq) => if seq > from && seq <= through {
                    before
                } else {
                    before.push(RewrittenTextView { seq, text })
                },
                _ => before,
            }
        }
    }
}

/// The decision a plan comes to, given where its cut can go.
pub open spec fn planned(l: LayoutView, p: PlanView, from: u64, cut: Option<u64>) -> CompactionDecisionView {
    let (df, dt) = drained(l, p);
    let (f, t, summary) = match cut {
        Some(through) => if dt > df {
            (
                from,
                through,
                match p.summary {
                    Some(s) => s,
                    None => listed_for(l, df, dt, through),
                },
            )
        } else {
            (0u64, 0u64, Seq::empty())
        },
        None => (0u64, 0u64, Seq::empty()),
    };
    CompactionDecisionView {
        from: f,
        through: t,
        summary,
        rewrites: standing_rewrites(l, p.rewrites, (df, dt), f, t),
        note: p.resume_note,
    }
}

impl Layout {
    fn logged(&self, from: usize, to: usize) -> (out: Vec<Message>)
        requires
            from <= to <= self.messages.len(),
            self.messages.len() == self.sources.len(),
        ensures
            out.deep_view() == as_logged(self.deep_view(), from as int, to as int),
    {
        let ghost l = self.deep_view();
        let ghost all = as_logged(l, from as int, to as int);
        let mut out: Vec<Message> = none_of();
        let mut i: usize = from;
        assert(out.deep_view() =~= all.take(0));
        while i < to
            invariant
                from <= i <= to <= self.messages.len(),
                self.messages.len() == self.sources.len(),
                l == self.deep_view(),
                all == as_logged(l, from as int, to as int),
                out.deep_view() == all.take(i - from),
            decreases to - i,
        {
            let message = self.messages[i].clone();
            assert(l.messages[i as int] == message.deep_view());
            assert(l.sources[i as int] == self.sources@[i as int]);
            if self.sources[i].is_summary() {
                put(&mut out, Message { role: Role::System, ..message });
            } else {
                put(&mut out, message);
            }
            assert(all[i - from] == (if l.sources[i as int] is Summary {
                MessageView { role: Role::System, ..l.messages[i as int] }
            } else {
                l.messages[i as int]
            }));
            assert(out.deep_view() =~= all.take(i - from + 1));
            i = i + 1;
        }
        assert(all.take(i - from) =~= all);
        out
    }

    fn standing(
        &self,
        rewrites: &Vec<(usize, String)>,
        drain_from: usize,
        drain_to: usize,
        from: u64,
        through: u64,
    ) -> (out: Vec<RewrittenText>)
        requires
            self.messages.len() == self.sources.len(),
        ensures
            out.deep_view() == standing_rewrites(
                self.deep_view(),
                rewrites.deep_view(),
                (drain_from as int, drain_to as int),
                from,
                through,
            ),
    {
        let ghost l = self.deep_view();
        let ghost drain = (drain_from as int, drain_to as int);
        let ghost all = rewrites.deep_view();
        let len = self.messages.len();
        let floor = if self.floor <= len {
            self.floor
        } else {
            len
        };
        let mut out: Vec<RewrittenText> = none_of();
        let mut i: usize = 0;
        assert(all.take(0) =~= Seq::<(usize, Seq<char>)>::empty());
        while i < rewrites.len()
            invariant
                i <= rewrites.len(),
                len == self.messages.len(),
                self.messages.len() == self.sources.len(),
                floor == least(l.floor as int, l.messages.len() as int),
                l == self.deep_view(),
                drain == (drain_from as int, drain_to as int),
                all == rewrites.deep_view(),
                out.deep_view() == standing_rewrites(l, all.take(i as int), drain, from, through),
            decreases rewrites.len() - i,
        {
            assert(all.take(i + 1).drop_last() =~= all.take(i as int));
            assert(all.take(i + 1).last() == rewrites@[i as int].deep_view());
            let index = rewrites[i].0;
            if !(index < floor || index >= len || (drain_from <= index && index < drain_to)) {
                assert(l.sources[index as int] == self.sources@[index as int]);
                match self.sources[index] {
                    Provenance::Event(seq) => {
                        if !(seq > from && seq <= through) {
                            put(&mut out, RewrittenText { seq, text: rewrites[i].1.clone() });
                        }
                    },
                    _ => {},
                }
            }
            i = i + 1;
        }
        assert(all.take(i as int) =~= all);
        out
    }

    /// The decision a plan comes to. `from` is where its fold would start, `cut` where
    /// it can end.
    pub fn decide(&self, plan: &Plan, from: u64, cut: Option<u64>) -> (d: CompactionDecision)
        requires
            self.messages.len() == self.sources.len(),
        ensures
            d.deep_view() == planned(self.deep_view(), plan.deep_view(), from, cut),
    {
        let (drain_from, drain_to) = self.drain(plan);
        let mut d = CompactionDecision {
            note: plan.resume_note.clone(),
            ..CompactionDecision::fold(0, String::new())
        };
        match cut {
            Some(through) => {
                if drain_to > drain_from {
                    let summary = match &plan.summary {
                        Some(s) => s.clone(),
                        None => listed_summary(
                            &CompactedSpan::from_messages(
                                through,
                                &self.logged(drain_from, drain_to),
                            ),
                        ),
                    };
                    d.from = from;
                    d.through = through;
                    d.summary = summary;
                }
            },
            None => {},
        }
        d.rewrites = self.standing(&plan.rewrites, drain_from, drain_to, d.from, d.through);
        assert(d.deep_view() =~= planned(self.deep_view(), plan.deep_view(), from, cut));
        d
    }
}

/// What a message puts on the wire, in bytes.
pub open spec fn message_bytes(m: MessageView) -> nat {
    text::bytes(m.text) + (match m.reasoning {
        Some(r) => text::bytes(r),
        None => 0,
    }) + call_bytes(m.tool_calls) + (match m.tool_call_id {
        Some(id) => text::bytes(id),
        None => 0,
    })
}

pub open spec fn call_bytes(calls: Seq<ToolCallView>) -> nat
    decreases calls.len(),
{
    if calls.len() == 0 {
        0
    } else {
        let c = calls.last();
        call_bytes(calls.drop_last()) + text::bytes(c.id) + text::bytes(c.name) + text::bytes(
            c.arguments,
        )
    }
}

pub open spec fn wire(messages: Seq<MessageView>) -> nat
    decreases messages.len(),
{
    if messages.len() == 0 {
        0
    } else {
        wire(messages.drop_last()) + message_bytes(messages.last())
    }
}

/// The bytes that ride the wire for a conversation, up to the largest count there is.
pub fn wire_bytes(messages: &Vec<Message>) -> (n: usize)
    ensures
        n == span::capped(wire(messages.deep_view())),
{
    let ghost all = messages.deep_view();
    let mut n: usize = 0;
    let mut i: usize = 0;
    assert(all.take(0) =~= Seq::<MessageView>::empty());
    while i < messages.len()
        invariant
            i <= messages.len(),
            all == messages.deep_view(),
            n == span::capped(wire(all.take(i as int))),
        decreases messages.len() - i,
    {
        assert(all.take(i + 1).drop_last() =~= all.take(i as int));
        assert(all.take(i + 1).last() == messages@[i as int].deep_view());
        let m = &messages[i];
        let ghost calls = m.tool_calls.deep_view();
        let mut k: usize = 0;
        let mut c: usize = 0;
        assert(calls.take(0) =~= Seq::<ToolCallView>::empty());
        while k < m.tool_calls.len()
            invariant
                k <= m.tool_calls.len(),
                calls == m.tool_calls.deep_view(),
                c == span::capped(call_bytes(calls.take(k as int))),
            decreases m.tool_calls.len() - k,
        {
            assert(calls.take(k + 1).drop_last() =~= calls.take(k as int));
            assert(calls.take(k + 1).last() == m.tool_calls@[k as int].deep_view());
            let call = &m.tool_calls[k];
            c = c.saturating_add(size(call.id.as_str())).saturating_add(
                size(call.name.as_str()),
            ).saturating_add(size(call.arguments.as_str()));
            k = k + 1;
        }
        assert(calls.take(k as int) =~= calls);
        let r: usize = match &m.reasoning {
            Some(r) => size(r.as_str()),
            None => 0,
        };
        let id: usize = match &m.tool_call_id {
            Some(id) => size(id.as_str()),
            None => 0,
        };
        n = n.saturating_add(size(m.text.as_str())).saturating_add(r).saturating_add(
            c,
        ).saturating_add(id);
        i = i + 1;
    }
    assert(all.take(i as int) =~= all);
    n
}

/// The protected head is never drained.
pub proof fn law_head_is_not_drained(l: LayoutView, p: PlanView)
    ensures
        ({
            let (from, to) = drained(l, p);
            least(l.floor as int, l.messages.len() as int) <= from <= to <= l.messages.len()
        }),
{
}

/// What a decision rewrites is a fact outside the protected head, outside what is
/// drained, and outside what is folded; and the new text is the plan's.
pub proof fn law_rewrites_stand_clear(
    l: LayoutView,
    rewrites: Seq<(usize, Seq<char>)>,
    drain: (int, int),
    from: u64,
    through: u64,
    k: int,
)
    requires
        0 <= k < standing_rewrites(l, rewrites, drain, from, through).len(),
    ensures
        ({
            let w = standing_rewrites(l, rewrites, drain, from, through)[k];
            &&& !(from < w.seq <= through)
            &&& exists|j: int|
                0 <= j < rewrites.len() && (#[trigger] rewrites[j]).1 == w.text && least(
                    l.floor as int,
                    l.messages.len() as int,
                ) <= rewrites[j].0 < l.messages.len() && !(drain.0 <= rewrites[j].0 < drain.1)
                    && l.sources[rewrites[j].0 as int] == Provenance::Event(w.seq)
        }),
    decreases rewrites.len(),
{
    let front = rewrites.drop_last();
    let before = standing_rewrites(l, front, drain, from, through);
    let w = standing_rewrites(l, rewrites, drain, from, through)[k];
    if k < before.len() {
        law_rewrites_stand_clear(l, front, drain, from, through, k);
        assert(w == before[k]);
        let j = choose|j: int|
            0 <= j < front.len() && (#[trigger] front[j]).1 == w.text && least(
                l.floor as int,
                l.messages.len() as int,
            ) <= front[j].0 < l.messages.len() && !(drain.0 <= front[j].0 < drain.1)
                && l.sources[front[j].0 as int] == Provenance::Event(w.seq);
        assert(rewrites[j] == front[j]);
    } else {
        assert(rewrites[rewrites.len() - 1] == rewrites.last());
    }
}

} // verus!

//! What a compaction keeps: nothing a continuation needs is dropped on the way from the
//! log to the summary that stands in for it.
use crate::compaction;
use crate::events::{
    InjectionOriginView, LoggedEventView, SessionEventView, SessionLogView,
};
use crate::log;
use crate::occurrence;
use crate::occurrence::in_order;
use crate::order;
use crate::span;
use crate::span::{CompactedSpanView, CompactionDecisionView, LISTED_HEADER, LISTED_MAX};
use crate::text;
use vstd::prelude::*;

verus! {

// ---- the digest -----------------------------------------------------------

/// Texts without the white space around them.
pub open spec fn bare(list: Seq<Seq<char>>) -> Seq<Seq<char>> {
    Seq::new(list.len(), |i: int| text::trimmed(list[i]))
}

proof fn lemma_bullets_hold(list: Seq<Seq<char>>)
    ensures
        in_order(text::strung(span::bullets(list)), list),
{
    assert forall|i: int| 0 <= i < list.len() implies in_order(
        #[trigger] span::bullets(list)[i],
        seq![list[i]],
    ) by {
        occurrence::lemma_within("- "@, list[i], "\n"@);
    }
    occurrence::lemma_strung(span::bullets(list), list);
}

proof fn lemma_tools_line_holds(tools: Seq<Seq<char>>)
    ensures
        in_order(span::tools_line(tools), tools),
{
    if tools.len() > 0 {
        occurrence::lemma_none(span::TOOLS_LINE@);
        occurrence::lemma_joined(tools, ", "@);
        occurrence::lemma_together(
            span::TOOLS_LINE@,
            Seq::empty(),
            text::joined(tools, ", "@),
            tools,
        );
        assert(Seq::<Seq<char>>::empty() + tools =~= tools);
        occurrence::lemma_none("\n"@);
        occurrence::lemma_together(
            span::TOOLS_LINE@ + text::joined(tools, ", "@),
            tools,
            "\n"@,
            Seq::empty(),
        );
        assert(tools + Seq::<Seq<char>>::empty() =~= tools);
    }
}

/// The digest of a span holds everything it is made of, in order: every earlier summary
/// word for word, then every request asked since, then every tool used since.
pub proof fn law_the_digest_keeps_everything(s: CompactedSpanView)
    ensures
        in_order(span::digested(s), bare(s.prior) + s.prompts + s.tools),
        forall|i: int|
            0 <= i < s.prior.len() ==> text::holds(
                span::digested(s),
                text::trimmed(#[trigger] s.prior[i]),
            ),
{
    let p = text::strung(span::paragraphs(s.prior));
    assert forall|i: int| 0 <= i < s.prior.len() implies in_order(
        #[trigger] span::paragraphs(s.prior)[i],
        seq![bare(s.prior)[i]],
    ) by {
        let t = text::trimmed(s.prior[i]);
        occurrence::lemma_within(Seq::empty(), t, "\n\n"@);
        assert(Seq::<char>::empty() + t + "\n\n"@ =~= t + "\n\n"@);
    }
    occurrence::lemma_strung(span::paragraphs(s.prior), bare(s.prior));
    let head = if s.prior.len() == 0 {
        Seq::empty()
    } else {
        "Asked since:\n"@
    };
    let asked = if s.prompts.len() == 0 {
        Seq::empty()
    } else {
        head + text::strung(span::bullets(s.prompts))
    };
    lemma_bullets_hold(s.prompts);
    occurrence::lemma_none(head);
    occurrence::lemma_together(
        head,
        Seq::empty(),
        text::strung(span::bullets(s.prompts)),
        s.prompts,
    );
    assert(Seq::<Seq<char>>::empty() + s.prompts =~= s.prompts);
    occurrence::lemma_together(p, bare(s.prior), asked, s.prompts);
    lemma_tools_line_holds(s.tools);
    occurrence::lemma_together(
        p + asked,
        bare(s.prior) + s.prompts,
        span::tools_line(s.tools),
        s.tools,
    );
    let all = bare(s.prior) + s.prompts + s.tools;
    assert forall|i: int| 0 <= i < s.prior.len() implies text::holds(
        span::digested(s),
        text::trimmed(#[trigger] s.prior[i]),
    ) by {
        assert(all[i] == text::trimmed(s.prior[i]));
        occurrence::lemma_each(span::digested(s), all, i);
    }
}

/// An earlier summary is carried in front of what the rest of the span comes to, and
/// changes nothing in it.
pub proof fn law_a_summary_is_carried_in_front(s: CompactedSpanView, first: Seq<char>)
    requires
        s.prior.len() > 0,
    ensures
        span::digested(
            CompactedSpanView { prior: seq![first] + s.prior, ..s },
        ) == text::trimmed(first) + "\n\n"@ + span::digested(s),
{
    let more = seq![first] + s.prior;
    let a = span::paragraphs(more);
    let b = span::paragraphs(s.prior);
    let f = text::trimmed(first) + "\n\n"@;
    lemma_strung_in_front(f, b);
    assert(a =~= seq![f] + b);
    assert(span::digested(CompactedSpanView { prior: more, ..s }) =~= f + span::digested(s));
}

proof fn lemma_strung_in_front(f: Seq<char>, b: Seq<Seq<char>>)
    ensures
        text::strung(seq![f] + b) == f + text::strung(b),
    decreases b.len(),
{
    let all = seq![f] + b;
    if b.len() == 0 {
        assert(all.drop_last() =~= Seq::<Seq<char>>::empty());
        assert(all.last() == f);
        assert(text::strung(all.drop_last()) =~= Seq::<char>::empty());
        assert(text::strung(all) =~= f + text::strung(b));
    } else {
        lemma_strung_in_front(f, b.drop_last());
        assert(all.drop_last() =~= seq![f] + b.drop_last());
        assert(all.last() == b.last());
        assert(text::strung(all) =~= f + text::strung(b));
    }
}

/// The model that is asked for a summary is told everything the span is made of, and
/// asked about the span the log has; it is asked only where there is one, and not where
/// an overflow was already answered.
pub proof fn law_the_model_is_told_everything(
    keep_turns: u64,
    log: SessionLogView,
    stubbed: Option<CompactionDecisionView>,
)
    ensures
        match compaction::begun(keep_turns, log, stubbed) {
            compaction::SummingView::Decided { decision } => stubbed == Some(decision),
            compaction::SummingView::Ask { span: s, prompt } => {
                &&& stubbed is None
                &&& span::settled(log, keep_turns) == Some(s)
                &&& prompt.len() == 2
                &&& prompt[0].role is System
                &&& prompt[1].role is User
                &&& in_order(prompt[1].text, bare(s.prior) + s.prompts + s.tools)
            },
            compaction::SummingView::Nothing => stubbed is None && span::settled(
                log,
                keep_turns,
            ) is None,
        },
{
    match compaction::begun(keep_turns, log, stubbed) {
        compaction::SummingView::Ask { span: s, prompt } => {
            law_the_digest_keeps_everything(s);
        },
        _ => {},
    }
}

/// What the model wrote is what the span is folded under.
pub proof fn law_what_was_written_stands(s: CompactedSpanView, wrote: Seq<char>)
    ensures
        ({
            let d = compaction::summarised(s, Some(wrote));
            &&& d.through == s.through
            &&& d.from == 0
            &&& d.rewrites.len() == 0
            &&& text::holds(d.summary, wrote)
        }),
{
    let head = "=== EARLIER IN THIS SESSION ===\n"@;
    let d = compaction::summarised(s, Some(wrote)).summary;
    assert(d.subrange(head.len() as int, (head.len() + wrote.len()) as int) =~= wrote);
}

// ---- the listed summary ---------------------------------------------------

/// What was written above an earlier list, or in place of one, is kept word for word.
pub proof fn law_a_written_summary_is_kept(s: CompactedSpanView, k: int)
    requires
        0 <= k < s.prior.len(),
        !text::holds(s.prior[k], LISTED_HEADER@),
    ensures
        text::holds(span::listed(s), text::trimmed(s.prior[k])),
{
    let t = text::trimmed(s.prior[k]);
    text::lemma_place_of(s.prior[k], LISTED_HEADER@);
    if text::place_of(s.prior[k], LISTED_HEADER@) is Some {
        let i = text::place_of(s.prior[k], LISTED_HEADER@)->0;
        assert(s.prior[k].subrange(i, i + LISTED_HEADER@.len()) == LISTED_HEADER@);
    }
    let whole = span::listed(s);
    if t.len() == 0 {
        assert(whole.subrange(0, 0int + t.len()) =~= t);
    } else {
        let written = span::merged(s.prior).written;
        lemma_written_is_merged(s.prior, k);
        let j = choose|j: int| 0 <= j < written.len() && written[j] == t;
        assert forall|i: int| 0 <= i < written.len() implies in_order(
            #[trigger] span::spaced(written)[i],
            seq![written[i]],
        ) by {
            occurrence::lemma_within(Seq::empty(), written[i], "\n\n"@);
            assert(Seq::<char>::empty() + written[i] + "\n\n"@ =~= written[i] + "\n\n"@);
        }
        occurrence::lemma_strung(span::spaced(written), written);
        let a = text::strung(span::spaced(written));
        let b = whole.skip(a.len() as int);
        assert(whole =~= a + b);
        occurrence::lemma_none(b);
        occurrence::lemma_together(a, written, b, Seq::empty());
        assert(written + Seq::<Seq<char>>::empty() =~= written);
        occurrence::lemma_each(whole, written, j);
    }
}

proof fn lemma_written_is_merged(prior: Seq<Seq<char>>, k: int)
    requires
        0 <= k < prior.len(),
        text::place_of(prior[k], LISTED_HEADER@) is None,
        text::trimmed(prior[k]).len() > 0,
    ensures
        span::merged(prior).written.contains(text::trimmed(prior[k])),
    decreases prior.len(),
{
    let t = text::trimmed(prior[k]);
    let before = span::merged(prior.drop_last()).written;
    let all = span::merged(prior).written;
    if k == prior.len() - 1 {
        assert(all[all.len() - 1] == t);
    } else {
        lemma_written_is_merged(prior.drop_last(), k);
        let j = choose|j: int| 0 <= j < before.len() && before[j] == t;
        assert(all[j] == t);
    }
}

/// The latest requests are named, in the order they were asked, and every tool is.
pub proof fn law_the_latest_requests_are_named(s: CompactedSpanView)
    ensures
        ({
            let latest = if s.prompts.len() > LISTED_MAX {
                s.prompts.skip(s.prompts.len() - LISTED_MAX)
            } else {
                s.prompts
            };
            &&& in_order(span::listed(s), latest)
            &&& forall|k: int|
                0 <= k < s.tools.len() ==> text::holds(span::listed(s), #[trigger] s.tools[k])
        }),
{
    let l = span::accounted(s);
    let whole = span::listed(s);
    let latest = if s.prompts.len() > LISTED_MAX {
        s.prompts.skip(s.prompts.len() - LISTED_MAX)
    } else {
        s.prompts
    };
    let named = span::named(l);
    let older = named.take(named.len() - latest.len());
    assert(named =~= older + latest);
    let a = text::strung(span::spaced(span::merged(s.prior).written)) + LISTED_HEADER@
        + span::count_note(span::capped(span::unnamed(l)));
    let b = text::strung(span::bullets(named));
    let tools = order::catalogued(l.tools);
    let c = span::tools_line(tools);
    lemma_bullets_hold(named);
    lemma_tools_line_holds(tools);
    let none = Seq::<Seq<char>>::empty();
    occurrence::lemma_none(a);
    occurrence::lemma_together(a, none, b, named);
    assert(none + named =~= named);
    occurrence::lemma_together(a + b, named, c, tools);
    occurrence::lemma_none(span::LISTED_FOOTER@);
    occurrence::lemma_together(a + b + c, named + tools, span::LISTED_FOOTER@, none);
    assert((named + tools) + none =~= named + tools);
    assert(whole =~= a + b + c + span::LISTED_FOOTER@);
    assert(named + tools =~= older + (latest + tools));
    lemma_behind(whole, older, latest + tools);
    lemma_before(whole, latest, tools);
    order::law_catalogued(l.tools);
    assert forall|k: int| 0 <= k < s.tools.len() implies text::holds(
        whole,
        #[trigger] s.tools[k],
    ) by {
        assert(l.tools[l.tools.len() - s.tools.len() + k] == s.tools[k]);
        assert(tools.contains(s.tools[k]));
        let j = choose|j: int| 0 <= j < tools.len() && tools[j] == s.tools[k];
        assert((named + tools)[named.len() + j] == s.tools[k]);
        occurrence::lemma_each(whole, named + tools, named.len() + j);
    }
}

/// What stands in order stands in order without the first few.
proof fn lemma_behind(s: Seq<char>, a: Seq<Seq<char>>, b: Seq<Seq<char>>)
    requires
        in_order(s, a + b),
    ensures
        in_order(s, b),
    decreases b.len(),
{
    let all = a + b;
    if b.len() > 0 {
        let i = choose|i: int| #[trigger]
            occurrence::stands(s, all.last(), i) && in_order(s.take(i), all.drop_last());
        assert(all.last() == b.last());
        assert(all.drop_last() =~= a + b.drop_last());
        lemma_behind(s.take(i), a, b.drop_last());
        assert(occurrence::stands(s, b.last(), i));
    }
}

/// What stands in order stands in order without the last few.
proof fn lemma_before(s: Seq<char>, a: Seq<Seq<char>>, b: Seq<Seq<char>>)
    requires
        in_order(s, a + b),
    ensures
        in_order(s, a),
    decreases b.len(),
{
    let all = a + b;
    if b.len() > 0 {
        let i = choose|i: int| #[trigger]
            occurrence::stands(s, all.last(), i) && in_order(s.take(i), all.drop_last());
        assert(all.drop_last() =~= a + b.drop_last());
        lemma_before(s.take(i), a, b.drop_last());
        occurrence::lemma_none(s.skip(i));
        occurrence::lemma_together(s.take(i), a, s.skip(i), Seq::empty());
        assert(s.take(i) + s.skip(i) =~= s);
        assert(a + Seq::<Seq<char>>::empty() =~= a);
    } else {
        assert(all =~= a);
    }
}

// ---- the span -------------------------------------------------------------

/// A fact of the span: after the last fold, up to where the new one reaches.
pub open spec fn since(e: LoggedEventView, from: u64, through: u64) -> bool {
    from < e.seq <= through
}

/// What a person asked, in facts that were not taken back.
pub open spec fn asks(all: Seq<LoggedEventView>, e: LoggedEventView) -> bool {
    e.event matches SessionEventView::UserMessage { turn, .. } && !taken_back(all, turn)
}

/// The turn was cut off by a person and is to be forgotten.
pub open spec fn taken_back(all: Seq<LoggedEventView>, turn: u64) -> bool {
    exists|i: int|
        0 <= i < all.len() && (#[trigger] all[i]).event == (SessionEventView::Interrupted {
            turn,
            undone: true,
        })
}

pub open spec fn said(e: LoggedEventView) -> Seq<char> {
    match e.event {
        SessionEventView::UserMessage { text, .. } => text,
        SessionEventView::Injected { text, .. } => text,
        _ => Seq::empty(),
    }
}

pub open spec fn summary_of_old(e: LoggedEventView) -> bool {
    e.event matches SessionEventView::Injected {
        origin: InjectionOriginView::CompactionSummary,
        ..
    }
}

/// The tool was called by this fact.
pub open spec fn calls(all: Seq<LoggedEventView>, e: LoggedEventView, tool: Seq<char>) -> bool {
    e.event matches SessionEventView::AssistantMessage { turn, tool_calls, .. } && !taken_back(
        all,
        turn,
    ) && exists|k: int| 0 <= k < tool_calls.len() && (#[trigger] tool_calls[k]).name == tool
}

proof fn lemma_gathered(
    all: Seq<LoggedEventView>,
    events: Seq<LoggedEventView>,
    from: u64,
    through: u64,
)
    ensures
        ({
            let g = span::gathered(all, events, from, through);
            &&& g.prompts == events.filter(
                |e: LoggedEventView| since(e, from, through) && asks(all, e),
            ).map_values(|e: LoggedEventView| span::one_line(said(e), 200))
            &&& g.prior == events.filter(
                |e: LoggedEventView| since(e, from, through) && summary_of_old(e),
            ).map_values(|e: LoggedEventView| said(e))
            &&& forall|tool: Seq<char>| #[trigger]
                g.tools.contains(tool) <==> exists|i: int|
                    0 <= i < events.len() && since(#[trigger] events[i], from, through) && calls(
                        all,
                        events[i],
                        tool,
                    )
        }),
    decreases events.len(),
{
    reveal(Seq::filter);
    let g = span::gathered(all, events, from, through);
    let p = |e: LoggedEventView| since(e, from, through) && asks(all, e);
    let q = |e: LoggedEventView| since(e, from, through) && summary_of_old(e);
    let f = |e: LoggedEventView| span::one_line(said(e), 200);
    let h = |e: LoggedEventView| said(e);
    if events.len() == 0 {
        assert(g.prompts =~= events.filter(p).map_values(f));
        assert(g.prior =~= events.filter(q).map_values(h));
    } else {
        let front = events.drop_last();
        let e = events.last();
        lemma_gathered(all, front, from, through);
        let b = span::gathered(all, front, from, through);
        assert(events.filter(p) == if p(e) {
            front.filter(p).push(e)
        } else {
            front.filter(p)
        });
        assert(events.filter(q) == if q(e) {
            front.filter(q).push(e)
        } else {
            front.filter(q)
        });
        assert forall|turn: u64| taken_back(all, turn) == span::undone(all, turn) by {}
        assert(g.prompts =~= events.filter(p).map_values(f));
        assert(g.prior =~= events.filter(q).map_values(h));
        assert forall|tool: Seq<char>| #[trigger]
            g.tools.contains(tool) <==> exists|i: int|
                0 <= i < events.len() && since(#[trigger] events[i], from, through) && calls(
                    all,
                    events[i],
                    tool,
                ) by {
            lemma_tools_so_far(all, events, from, through, tool);
        }
    }
}

proof fn lemma_tools_so_far(
    all: Seq<LoggedEventView>,
    events: Seq<LoggedEventView>,
    from: u64,
    through: u64,
    tool: Seq<char>,
)
    requires
        events.len() > 0,
        span::gathered(all, events.drop_last(), from, through).tools.contains(tool) <==> exists|
            i: int,
        |
            0 <= i < events.drop_last().len() && since(
                #[trigger] events.drop_last()[i],
                from,
                through,
            ) && calls(all, events.drop_last()[i], tool),
    ensures
        span::gathered(all, events, from, through).tools.contains(tool) <==> exists|i: int|
            0 <= i < events.len() && since(#[trigger] events[i], from, through) && calls(
                all,
                events[i],
                tool,
            ),
{
    let front = events.drop_last();
    let e = events.last();
    let b = span::gathered(all, front, from, through).tools;
    let g = span::gathered(all, events, from, through).tools;
    let now = since(e, from, through) && calls(all, e, tool);
    assert forall|turn: u64| taken_back(all, turn) == span::undone(all, turn) by {}
    let added: Seq<Seq<char>> = if since(e, from, through) {
        match e.event {
            SessionEventView::AssistantMessage { turn, tool_calls, .. } => if taken_back(
                all,
                turn,
            ) {
                Seq::empty()
            } else {
                span::names_of(tool_calls)
            },
            _ => Seq::empty(),
        }
    } else {
        Seq::empty()
    };
    assert(g =~= b + added);
    assert(added.contains(tool) <==> now) by {
        if added.contains(tool) {
            let k = choose|k: int| 0 <= k < added.len() && added[k] == tool;
            match e.event {
                SessionEventView::AssistantMessage { tool_calls, .. } => {
                    assert(tool_calls[k].name == tool);
                },
                _ => {},
            }
        }
        if now {
            match e.event {
                SessionEventView::AssistantMessage { tool_calls, .. } => {
                    let k = choose|k: int|
                        0 <= k < tool_calls.len() && (#[trigger] tool_calls[k]).name == tool;
                    assert(added[k] == tool);
                },
                _ => {},
            }
        }
    }
    if g.contains(tool) {
        let k = choose|k: int| 0 <= k < g.len() && g[k] == tool;
        if k < b.len() {
            assert(b[k] == tool);
            let i = choose|i: int|
                0 <= i < front.len() && since(#[trigger] front[i], from, through) && calls(
                    all,
                    front[i],
                    tool,
                );
            assert(events[i] == front[i]);
        } else {
            assert(added[k - b.len()] == tool);
            assert(events[events.len() - 1] == e);
        }
    }
    if exists|i: int|
        0 <= i < events.len() && since(#[trigger] events[i], from, through) && calls(
            all,
            events[i],
            tool,
        ) {
        let i = choose|i: int|
            0 <= i < events.len() && since(#[trigger] events[i], from, through) && calls(
                all,
                events[i],
                tool,
            );
        if i < front.len() {
            assert(front[i] == events[i]);
            let k = choose|k: int| 0 <= k < b.len() && b[k] == tool;
            assert(g[k] == tool);
        } else {
            let k = choose|k: int| 0 <= k < added.len() && added[k] == tool;
            assert(g[b.len() + k] == tool);
        }
    }
}

/// A fold that no later fold follows.
pub open spec fn is_last_fold(events: Seq<LoggedEventView>, j: int) -> bool {
    &&& 0 <= j < events.len()
    &&& events[j].event is Compacted
    &&& forall|k: int| j < k < events.len() ==> !((#[trigger] events[k]).event is Compacted)
}

proof fn lemma_last_fold(events: Seq<LoggedEventView>, j: int)
    requires
        is_last_fold(events, j),
    ensures
        events[j].event matches SessionEventView::Compacted { through, summary, .. }
            && span::last_fold(events) == (through, Some(summary)),
    decreases events.len(),
{
    if j < events.len() - 1 {
        assert(!(events[events.len() - 1].event is Compacted));
        let front = events.drop_last();
        assert forall|k: int| j < k < front.len() implies !((
        #[trigger] front[k]).event is Compacted) by {
            assert(front[k] == events[k]);
        }
        lemma_last_fold(front, j);
    }
}

proof fn lemma_no_fold(events: Seq<LoggedEventView>)
    requires
        forall|k: int| 0 <= k < events.len() ==> !((#[trigger] events[k]).event is Compacted),
    ensures
        span::last_fold(events) == (0u64, None::<Seq<char>>),
    decreases events.len(),
{
    if events.len() > 0 {
        assert(!(events[events.len() - 1].event is Compacted));
        let front = events.drop_last();
        assert forall|k: int| 0 <= k < front.len() implies !((
        #[trigger] front[k]).event is Compacted) by {
            assert(front[k] == events[k]);
        }
        lemma_no_fold(front);
    }
}

/// Where the last fold reached; zero where nothing was folded yet.
pub open spec fn reached(events: Seq<LoggedEventView>, from: u64, carried: Seq<Seq<char>>) -> bool {
    ||| {
        &&& from == 0
        &&& carried.len() == 0
        &&& forall|k: int| 0 <= k < events.len() ==> !((#[trigger] events[k]).event is Compacted)
    }
    ||| exists|j: int| #[trigger]
        is_last_fold(events, j) && (events[j].event matches SessionEventView::Compacted {
            through,
            summary,
            ..
        } && from == through && carried == seq![summary])
}

/// The span a compaction folds is what came since the last fold: that fold's summary and
/// any other the session was seeded with, each thing asked and not taken back, one line
/// each and in order, and exactly the tools that were called.
pub proof fn law_the_span_is_what_came_since(
    s: SessionLogView,
    keep_turns: u64,
    from: u64,
    carried: Seq<Seq<char>>,
)
    requires
        reached(s.events, from, carried),
    ensures
        span::settled(s, keep_turns) matches Some(g) ==> {
            &&& g.prompts == s.events.filter(
                |e: LoggedEventView| since(e, from, g.through) && asks(s.events, e),
            ).map_values(|e: LoggedEventView| span::one_line(said(e), 200))
            &&& g.prior == carried + s.events.filter(
                |e: LoggedEventView| since(e, from, g.through) && summary_of_old(e),
            ).map_values(|e: LoggedEventView| said(e))
            &&& forall|tool: Seq<char>| #[trigger]
                g.tools.contains(tool) <==> exists|i: int|
                    0 <= i < s.events.len() && since(#[trigger] s.events[i], from, g.through)
                        && calls(s.events, s.events[i], tool)
        },
{
    if forall|k: int| 0 <= k < s.events.len() ==> !((#[trigger] s.events[k]).event is Compacted) {
        lemma_no_fold(s.events);
    } else {
        let j = choose|j: int| #[trigger]
            is_last_fold(s.events, j) && (s.events[j].event matches SessionEventView::Compacted {
                through,
                summary,
                ..
            } && from == through && carried == seq![summary]);
        lemma_last_fold(s.events, j);
    }
    match span::settled(s, keep_turns) {
        Some(g) => {
            lemma_gathered(s.events, s.events, from, g.through);
            span::law_span_tools_are_catalogued(s, keep_turns);
            let got = span::gathered(s.events, s.events, from, g.through);
            assert(g.prior =~= carried + got.prior);
        },
        None => {},
    }
}

/// A fold reaches exactly as far as the last fact of the turns that are not kept.
pub proof fn law_a_fold_reaches_the_kept_turns(s: SessionLogView, keep_turns: u64)
    ensures
        span::settled(s, keep_turns) matches Some(g) ==> {
            &&& s.current_turn > keep_turns
            &&& forall|i: int|
                0 <= i < s.events.len() && log::fact_turn((#[trigger] s.events[i]).event)
                    <= s.current_turn - keep_turns ==> s.events[i].seq <= g.through
            &&& exists|i: int|
                0 <= i < s.events.len() && (#[trigger] s.events[i]).seq == g.through
                    && log::fact_turn(s.events[i].event) <= s.current_turn - keep_turns
        },
{
    span::law_span_keeps_recent_turns(s, keep_turns);
    if s.current_turn > keep_turns {
        span::lemma_boundary_is_above(s.events, (s.current_turn - keep_turns) as u64);
    }
}

/// There is a span exactly where something asked and not taken back, or a tool called,
/// lies beyond the last fold and before the kept turns.
pub proof fn law_what_was_asked_is_folded(
    s: SessionLogView,
    keep_turns: u64,
    from: u64,
    carried: Seq<Seq<char>>,
    i: int,
)
    requires
        reached(s.events, from, carried),
        s.current_turn > keep_turns,
        0 <= i < s.events.len(),
        s.events[i].seq > from,
        log::fact_turn(s.events[i].event) <= s.current_turn - keep_turns,
        asks(s.events, s.events[i]),
    ensures
        span::settled(s, keep_turns) matches Some(g) && g.prompts.contains(
            span::one_line(said(s.events[i]), 200),
        ),
{
    let cutoff = (s.current_turn - keep_turns) as u64;
    span::lemma_boundary_is_above(s.events, cutoff);
    let through = span::boundary(s.events, cutoff)->0;
    if forall|k: int| 0 <= k < s.events.len() ==> !((#[trigger] s.events[k]).event is Compacted) {
        lemma_no_fold(s.events);
    } else {
        let j = choose|j: int| #[trigger]
            is_last_fold(s.events, j) && (s.events[j].event matches SessionEventView::Compacted {
                through,
                summary,
                ..
            } && from == through && carried == seq![summary]);
        lemma_last_fold(s.events, j);
    }
    lemma_gathered(s.events, s.events, from, through);
    let p = |e: LoggedEventView| since(e, from, through) && asks(s.events, e);
    let f = |e: LoggedEventView| span::one_line(said(e), 200);
    s.events.lemma_filter_contains(p, i);
    let kept = s.events.filter(p);
    let k = choose|k: int| 0 <= k < kept.len() && kept[k] == s.events[i];
    assert(kept.map_values(f)[k] == f(s.events[i]));
}

/// A request is kept as one line: as it was where it is short, else its beginning and a
/// mark that there was more.
pub proof fn law_a_request_is_one_line(s: Seq<char>, max: int)
    requires
        max >= 0,
    ensures
        ({
            let r = span::one_line(s, max);
            &&& r.len() <= max + 1
            &&& !r.contains('\n')
            &&& s.len() <= max ==> r.len() == s.len()
            &&& s.len() > max ==> r.len() == max + 1 && r.last() == '…'
            &&& forall|i: int|
                0 <= i < r.len() && i < max && i < s.len() ==> #[trigger] r[i] == (if s[i] == '\n' {
                    ' '
                } else {
                    s[i]
                })
        }),
{
    reveal_strlit("…");
    let r = span::one_line(s, max);
    assert forall|i: int| 0 <= i < r.len() implies r[i] != '\n' by {}
}

} // verus!

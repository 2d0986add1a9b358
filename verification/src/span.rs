//! The part of a session a compaction folds away, and the summary that stands in
//! for it.
//!
//! A summary is made from what the model already sees of the span: an earlier summary
//! stands in for everything it replaced and is carried, not rebuilt.
use crate::data::{none_of, one_of, put, put_all, Dup};
use crate::events::{
    InjectionOrigin, InjectionOriginView, LoggedEvent, LoggedEventView, RewrittenText,
    RewrittenTextView, SessionEvent, SessionEventView, SessionLog, SessionLogView, ToolCall, ToolCallView,
};
use crate::log;
use crate::order;
use crate::order::sort_once;
use crate::text;
use crate::text::{
    find, join, lead, lines_of, lit, number, read_number, split_by, strip_prefix, strip_suffix,
    swap, trim,
};
use vstd::prelude::*;

verus! {

pub const LISTED_HEADER: &'static str = "=== EARLIER IN THIS SESSION ===\nThese turns were compacted. What was asked:\n";

pub const LISTED_FOOTER: &'static str = "Ask again for any detail you need from before this point rather than assuming it.\n";

pub const TOOLS_LINE: &'static str = "Tools used: ";

/// Requests a listed summary names. Past this the oldest are counted, not listed.
pub const LISTED_MAX: usize = 40;

/// The span a compaction folds away, and what it is made of.
#[derive(Debug, PartialEq, Eq)]
pub struct CompactedSpan {
    /// The last sequence number folded.
    pub through: u64,
    /// The summaries the model already had for this span, oldest first.
    pub prior: Vec<String>,
    /// What was asked since the last fold, one line each, oldest first.
    pub prompts: Vec<String>,
    /// The tools used since the last fold, sorted, once each.
    pub tools: Vec<String>,
}

/// What a [`CompactedSpan`] holds.
#[verifier::ext_equal]
pub struct CompactedSpanView {
    pub through: u64,
    pub prior: Seq<Seq<char>>,
    pub prompts: Seq<Seq<char>>,
    pub tools: Seq<Seq<char>>,
}

impl DeepView for CompactedSpan {
    type V = CompactedSpanView;

    open spec fn deep_view(&self) -> CompactedSpanView {
        CompactedSpanView {
            through: self.through.deep_view(),
            prior: self.prior.deep_view(),
            prompts: self.prompts.deep_view(),
            tools: self.tools.deep_view(),
        }
    }
}

impl Dup for CompactedSpan {
    fn dup(&self) -> (r: Self) {
        CompactedSpan {
            through: self.through.dup(),
            prior: self.prior.dup(),
            prompts: self.prompts.dup(),
            tools: self.tools.dup(),
        }
    }
}

impl Clone for CompactedSpan {
    fn clone(&self) -> (r: Self)
        ensures
            r.deep_view() == self.deep_view(),
    {
        self.dup()
    }
}

/// A listed summary taken apart.
#[derive(Debug, PartialEq, Eq)]
pub struct Listed {
    /// What was written before the list.
    pub written: String,
    /// The requests it names.
    pub asked: Vec<String>,
    /// How many it had already stopped naming.
    pub omitted: usize,
    pub tools: Vec<String>,
}

/// What a [`Listed`] holds.
#[verifier::ext_equal]
pub struct ListedView {
    pub written: Seq<char>,
    pub asked: Seq<Seq<char>>,
    pub omitted: usize,
    pub tools: Seq<Seq<char>>,
}

impl DeepView for Listed {
    type V = ListedView;

    open spec fn deep_view(&self) -> ListedView {
        ListedView {
            written: self.written.deep_view(),
            asked: self.asked.deep_view(),
            omitted: self.omitted.deep_view(),
            tools: self.tools.deep_view(),
        }
    }
}

impl Dup for Listed {
    fn dup(&self) -> (r: Self) {
        Listed {
            written: self.written.dup(),
            asked: self.asked.dup(),
            omitted: self.omitted.dup(),
            tools: self.tools.dup(),
        }
    }
}

impl Clone for Listed {
    fn clone(&self) -> (r: Self)
        ensures
            r.deep_view() == self.deep_view(),
    {
        self.dup()
    }
}

/// Where a compaction folds, what stands in for what it folds, and what it shortens.
#[derive(Debug, PartialEq, Eq)]
pub struct CompactionDecision {
    /// The last sequence number kept before the fold; zero where it starts at the top.
    pub from: u64,
    /// The last sequence number folded; zero where nothing is.
    pub through: u64,
    pub summary: String,
    /// Facts shown with another text.
    pub rewrites: Vec<RewrittenText>,
    /// What the model is told on resuming.
    pub note: Option<String>,
}

/// What a [`CompactionDecision`] holds.
#[verifier::ext_equal]
pub struct CompactionDecisionView {
    pub from: u64,
    pub through: u64,
    pub summary: Seq<char>,
    pub rewrites: Seq<RewrittenTextView>,
    pub note: Option<Seq<char>>,
}

impl DeepView for CompactionDecision {
    type V = CompactionDecisionView;

    open spec fn deep_view(&self) -> CompactionDecisionView {
        CompactionDecisionView {
            from: self.from.deep_view(),
            through: self.through.deep_view(),
            summary: self.summary.deep_view(),
            rewrites: self.rewrites.deep_view(),
            note: self.note.deep_view(),
        }
    }
}

impl Dup for CompactionDecision {
    fn dup(&self) -> (r: Self) {
        CompactionDecision {
            from: self.from.dup(),
            through: self.through.dup(),
            summary: self.summary.dup(),
            rewrites: self.rewrites.dup(),
            note: self.note.dup(),
        }
    }
}

impl Clone for CompactionDecision {
    fn clone(&self) -> (r: Self)
        ensures
            r.deep_view() == self.deep_view(),
    {
        self.dup()
    }
}

/// The decision to fold everything up to `through` under a summary.
pub open spec fn folded(through: u64, summary: Seq<char>) -> CompactionDecisionView {
    CompactionDecisionView { from: 0, through, summary, rewrites: Seq::empty(), note: None }
}

impl CompactionDecision {
    pub fn fold(through: u64, summary: String) -> (d: Self)
        ensures
            d.deep_view() == folded(through, summary@),
    {
        CompactionDecision { from: 0, through, summary, rewrites: none_of(), note: None }
    }

    /// Nothing is folded and nothing is shown differently.
    pub fn is_empty(&self) -> (r: bool)
        ensures
            r == (self.deep_view().through == 0 && self.deep_view().rewrites.len() == 0),
    {
        self.through == 0 && self.rewrites.len() == 0
    }
}

// ---- the digest -----------------------------------------------------------

pub open spec fn paragraphs(list: Seq<Seq<char>>) -> Seq<Seq<char>> {
    Seq::new(list.len(), |i: int| text::trimmed(list[i]) + "\n\n"@)
}

pub open spec fn bullets(list: Seq<Seq<char>>) -> Seq<Seq<char>> {
    Seq::new(list.len(), |i: int| "- "@ + list[i] + "\n"@)
}

/// The line that names the tools; nothing where none were used.
pub open spec fn tools_line(tools: Seq<Seq<char>>) -> Seq<char> {
    if tools.len() == 0 {
        Seq::empty()
    } else {
        TOOLS_LINE@ + text::joined(tools, ", "@) + "\n"@
    }
}

/// The span as plain text: the earlier summaries, then what was asked and used since.
pub open spec fn digested(s: CompactedSpanView) -> Seq<char> {
    text::strung(paragraphs(s.prior)) + (if s.prompts.len() == 0 {
        Seq::empty()
    } else {
        (if s.prior.len() == 0 {
            Seq::empty()
        } else {
            "Asked since:\n"@
        }) + text::strung(bullets(s.prompts))
    }) + tools_line(s.tools)
}

fn write_bullets(out: &mut String, list: &Vec<String>)
    ensures
        final(out)@ == old(out)@ + text::strung(bullets(list.deep_view())),
{
    let ghost start = out@;
    let ghost all = bullets(list.deep_view());
    let mut i: usize = 0;
    assert(all.take(0) =~= Seq::<Seq<char>>::empty());
    assert(out@ =~= start + text::strung(all.take(0)));
    while i < list.len()
        invariant
            i <= list.len(),
            all == bullets(list.deep_view()),
            out@ == start + text::strung(all.take(i as int)),
        decreases list.len() - i,
    {
        assert(all.take(i + 1).drop_last() =~= all.take(i as int));
        assert(all.take(i + 1).last() == "- "@ + list@[i as int]@ + "\n"@);
        out.append("- ");
        out.append(list[i].as_str());
        out.append("\n");
        assert(out@ =~= start + text::strung(all.take(i + 1)));
        i = i + 1;
    }
    assert(all.take(i as int) =~= all);
}

fn write_tools(out: &mut String, tools: &Vec<String>)
    ensures
        final(out)@ == old(out)@ + tools_line(tools.deep_view()),
{
    if tools.len() > 0 {
        out.append(TOOLS_LINE);
        out.append(join(tools, ", ").as_str());
        out.append("\n");
    }
    assert(out@ =~= old(out)@ + tools_line(tools.deep_view()));
}

impl CompactedSpan {
    /// The span as plain text, without a header or a closing instruction.
    pub fn digest(&self) -> (out: String)
        ensures
            out@ == digested(self.deep_view()),
    {
        let mut out = String::new();
        let ghost all = paragraphs(self.prior.deep_view());
        let mut i: usize = 0;
        assert(all.take(0) =~= Seq::<Seq<char>>::empty());
        while i < self.prior.len()
            invariant
                i <= self.prior.len(),
                all == paragraphs(self.prior.deep_view()),
                out@ == text::strung(all.take(i as int)),
            decreases self.prior.len() - i,
        {
            assert(all.take(i + 1).drop_last() =~= all.take(i as int));
            assert(all.take(i + 1).last() == text::trimmed(self.prior@[i as int]@) + "\n\n"@);
            out.append(trim(self.prior[i].as_str()));
            out.append("\n\n");
            assert(out@ =~= text::strung(all.take(i + 1)));
            i = i + 1;
        }
        assert(all.take(i as int) =~= all);
        let ghost head = out@;
        if self.prompts.len() > 0 {
            if self.prior.len() > 0 {
                out.append("Asked since:\n");
            }
            write_bullets(&mut out, &self.prompts);
        }
        write_tools(&mut out, &self.tools);
        assert(out@ =~= digested(self.deep_view()));
        out
    }
}

// ---- a listed summary, taken apart ----------------------------------------

/// What stands before the first `t`; all of `s` where there is none.
pub open spec fn until(s: Seq<char>, t: Seq<char>) -> Seq<char> {
    match text::place_of(s, t) {
        Some(i) => s.take(i),
        None => s,
    }
}

/// The count a line of a listed summary carries for the requests it does not name.
pub open spec fn count_line(line: Seq<char>) -> Option<nat> {
    match text::after(line, "- ("@) {
        Some(rest) => match text::before(rest, " earlier requests not listed)"@) {
            Some(n) => text::number_read(n),
            None => None,
        },
        None => None,
    }
}

/// What a listed summary's lines hold.
#[verifier::ext_equal]
pub struct ListView {
    pub asked: Seq<Seq<char>>,
    pub omitted: nat,
    pub tools: Seq<Seq<char>>,
}

pub open spec fn list_lines(lines: Seq<Seq<char>>) -> ListView
    decreases lines.len(),
{
    if lines.len() == 0 {
        ListView { asked: Seq::empty(), omitted: 0, tools: Seq::empty() }
    } else {
        let r = list_lines(lines.drop_last());
        let line = lines.last();
        match text::after(line, TOOLS_LINE@) {
            Some(named) => ListView { tools: r.tools + text::pieces_by(named, ", "@), ..r },
            None => match count_line(line) {
                Some(n) => ListView { omitted: r.omitted + n, ..r },
                None => match text::after(line, "- "@) {
                    Some(prompt) => ListView { asked: r.asked.push(prompt), ..r },
                    None => r,
                },
            },
        }
    }
}

pub open spec fn capped(n: nat) -> usize {
    if n <= usize::MAX {
        n as usize
    } else {
        usize::MAX
    }
}

/// The list in a summary, where it has one.
pub open spec fn list_in(s: Seq<char>) -> ListView {
    match text::place_of(s, LISTED_HEADER@) {
        Some(at) => list_lines(
            text::lines(until(s.skip(at + LISTED_HEADER@.len()), LISTED_FOOTER@)),
        ),
        None => ListView { asked: Seq::empty(), omitted: 0, tools: Seq::empty() },
    }
}

/// A listed summary taken apart. One without a list is all writing.
pub open spec fn taken_apart(s: Seq<char>) -> ListedView {
    let l = list_in(s);
    ListedView {
        written: text::trimmed(until(s, LISTED_HEADER@)),
        asked: l.asked,
        omitted: capped(l.omitted),
        tools: l.tools,
    }
}

fn read_count(line: &str) -> (r: Option<usize>)
    ensures
        match r {
            Some(n) => count_line(line@) == Some(n as nat),
            None => count_line(line@) is None,
        },
{
    match strip_prefix(line, "- (") {
        Some(rest) => match strip_suffix(rest, " earlier requests not listed)") {
            Some(n) => read_number(n),
            None => None,
        },
        None => None,
    }
}

fn cut_at<'a>(s: &'a str, t: &str) -> (r: &'a str)
    ensures
        r@ == until(s@, t@),
{
    match find(s, t) {
        Some(i) => {
            let r = s.substring_char(0, i);
            assert(r@ =~= s@.take(i as int));
            r
        },
        None => s,
    }
}

/// Takes a listed summary apart.
pub fn split_listed(s: &str) -> (l: Listed)
    ensures
        l.deep_view() == taken_apart(s@),
{
    let mut asked: Vec<String> = none_of();
    let mut omitted: usize = 0;
    let mut tools: Vec<String> = none_of();
    let written = lit(trim(cut_at(s, LISTED_HEADER)));
    match find(s, LISTED_HEADER) {
        Some(at) => {
            let n = s.unicode_len();
            let rest = s.substring_char(at + LISTED_HEADER.unicode_len(), n);
            assert(rest@ =~= s@.skip(at + LISTED_HEADER@.len()));
            let list = lines_of(cut_at(rest, LISTED_FOOTER));
            let ghost all = list.deep_view();
            let mut i: usize = 0;
            assert(all.take(0) =~= Seq::<Seq<char>>::empty());
            proof {
                reveal_strlit(", ");
            }
            while i < list.len()
                invariant
                    i <= list.len(),
                    all == list.deep_view(),
                    ", "@.len() > 0,
                    asked.deep_view() == list_lines(all.take(i as int)).asked,
                    omitted == capped(list_lines(all.take(i as int)).omitted),
                    tools.deep_view() == list_lines(all.take(i as int)).tools,
                decreases list.len() - i,
            {
                assert(all.take(i + 1).drop_last() =~= all.take(i as int));
                assert(all.take(i + 1).last() == list@[i as int]@);
                let line = list[i].as_str();
                match strip_prefix(line, TOOLS_LINE) {
                    Some(named) => {
                        put_all(&mut tools, split_by(named, ", "));
                    },
                    None => match read_count(line) {
                        Some(n) => {
                            omitted = omitted.saturating_add(n);
                        },
                        None => match strip_prefix(line, "- ") {
                            Some(prompt) => {
                                put(&mut asked, lit(prompt));
                            },
                            None => {},
                        },
                    },
                }
                i = i + 1;
            }
            assert(all.take(i as int) =~= all);
        },
        None => {},
    }
    Listed { written, asked, omitted, tools }
}

// ---- the listed summary ---------------------------------------------------

/// What the summaries of a span add up to: what they say above their lists, and their
/// lists merged into one.
#[verifier::ext_equal]
pub struct Merged {
    pub written: Seq<Seq<char>>,
    pub list: ListView,
}

pub open spec fn merged(prior: Seq<Seq<char>>) -> Merged
    decreases prior.len(),
{
    if prior.len() == 0 {
        Merged {
            written: Seq::empty(),
            list: ListView { asked: Seq::empty(), omitted: 0, tools: Seq::empty() },
        }
    } else {
        let m = merged(prior.drop_last());
        let l = taken_apart(prior.last());
        Merged {
            written: if l.written.len() == 0 {
                m.written
            } else {
                m.written.push(l.written)
            },
            list: ListView {
                asked: m.list.asked + l.asked,
                omitted: m.list.omitted + l.omitted as nat,
                tools: m.list.tools + l.tools,
            },
        }
    }
}

/// Everything a listed summary of the span has to account for.
pub open spec fn accounted(s: CompactedSpanView) -> ListView {
    let m = merged(s.prior).list;
    ListView {
        asked: m.asked + s.prompts,
        omitted: m.omitted,
        tools: m.tools + s.tools,
    }
}

/// The requests a summary names: the latest ones.
pub open spec fn named(l: ListView) -> Seq<Seq<char>> {
    if l.asked.len() > LISTED_MAX {
        l.asked.skip(l.asked.len() - LISTED_MAX)
    } else {
        l.asked
    }
}

/// How many requests it counts without naming them.
pub open spec fn unnamed(l: ListView) -> nat {
    if l.asked.len() > LISTED_MAX {
        (l.omitted + l.asked.len() - LISTED_MAX) as nat
    } else {
        l.omitted
    }
}

pub open spec fn spaced(list: Seq<Seq<char>>) -> Seq<Seq<char>> {
    Seq::new(list.len(), |i: int| list[i] + "\n\n"@)
}

pub open spec fn count_note(n: usize) -> Seq<char> {
    if n == 0 {
        Seq::empty()
    } else {
        "- ("@ + text::decimal(n as nat) + " earlier requests not listed)\n"@
    }
}

/// The model-free summary of a span: what was written above, then one list of what
/// was asked and used.
pub open spec fn listed(s: CompactedSpanView) -> Seq<char> {
    let l = accounted(s);
    text::strung(spaced(merged(s.prior).written)) + LISTED_HEADER@ + count_note(
        capped(unnamed(l)),
    ) + text::strung(bullets(named(l))) + tools_line(order::catalogued(l.tools))
        + LISTED_FOOTER@
}

/// The last `n` entries of a list.
fn latest(list: Vec<String>, n: usize) -> (out: Vec<String>)
    ensures
        out.deep_view() == (if list.deep_view().len() > n {
            list.deep_view().skip(list.deep_view().len() - n)
        } else {
            list.deep_view()
        }),
{
    if list.len() <= n {
        return list;
    }
    let ghost all = list.deep_view();
    let from = list.len() - n;
    let mut out: Vec<String> = none_of();
    let mut i: usize = from;
    assert(out.deep_view() =~= all.skip(from as int).take(0));
    while i < list.len()
        invariant
            from <= i <= list.len(),
            all == list.deep_view(),
            out.deep_view() == all.skip(from as int).take(i - from),
        decreases list.len() - i,
    {
        put(&mut out, list[i].clone());
        assert(out.deep_view() =~= all.skip(from as int).take(i - from + 1));
        i = i + 1;
    }
    assert(all.skip(from as int).take(i - from) =~= all.skip(from as int));
    out
}

/// The model-free summary of a span. An earlier listed summary is merged into the
/// list; anything written is kept above it, word for word.
pub fn listed_summary(span: &CompactedSpan) -> (out: String)
    ensures
        out@ == listed(span.deep_view()),
{
    let mut head = String::new();
    let mut asked: Vec<String> = none_of();
    let mut omitted: usize = 0;
    let mut tools: Vec<String> = none_of();
    let ghost all = span.prior.deep_view();
    let mut i: usize = 0;
    assert(all.take(0) =~= Seq::<Seq<char>>::empty());
    assert(head@ =~= text::strung(spaced(merged(all.take(0)).written)));
    while i < span.prior.len()
        invariant
            i <= span.prior.len(),
            all == span.prior.deep_view(),
            head@ == text::strung(spaced(merged(all.take(i as int)).written)),
            asked.deep_view() == merged(all.take(i as int)).list.asked,
            omitted == capped(merged(all.take(i as int)).list.omitted),
            tools.deep_view() == merged(all.take(i as int)).list.tools,
        decreases span.prior.len() - i,
    {
        assert(all.take(i + 1).drop_last() =~= all.take(i as int));
        assert(all.take(i + 1).last() == span.prior@[i as int]@);
        let l = split_listed(span.prior[i].as_str());
        let ghost before = merged(all.take(i as int)).written;
        if !l.written.as_str().is_empty() {
            head.append(l.written.as_str());
            head.append("\n\n");
            proof {
                let now = before.push(l.written@);
                assert(spaced(now).drop_last() =~= spaced(before));
                assert(head@ =~= text::strung(spaced(now)));
            }
        }
        put_all(&mut asked, l.asked);
        omitted = omitted.saturating_add(l.omitted);
        put_all(&mut tools, l.tools);
        i = i + 1;
    }
    assert(all.take(i as int) =~= all);
    put_all(&mut asked, span.prompts.dup());
    put_all(&mut tools, span.tools.dup());
    let ghost l = accounted(span.deep_view());
    if asked.len() > LISTED_MAX {
        omitted = omitted.saturating_add(asked.len() - LISTED_MAX);
    }
    assert(omitted == capped(unnamed(l)));
    let asked = latest(asked, LISTED_MAX);
    let mut out = head;
    out.append(LISTED_HEADER);
    if omitted > 0 {
        out.append("- (");
        out.append(number(omitted as u64).as_str());
        out.append(" earlier requests not listed)\n");
    }
    write_bullets(&mut out, &asked);
    let tools = sort_once(&tools);
    write_tools(&mut out, &tools);
    out.append(LISTED_FOOTER);
    assert(out@ =~= listed(span.deep_view()));
    out
}

/// Nothing asked is forgotten: the requests a summary names and those it only counts
/// add up to every request of the span and of the summaries before it, and it never
/// names more than its limit.
pub proof fn law_requests_are_accounted_for(s: CompactedSpanView)
    ensures
        ({
            let l = accounted(s);
            &&& named(l).len() + unnamed(l) == merged(s.prior).list.asked.len() + merged(
                s.prior,
            ).list.omitted + s.prompts.len()
            &&& named(l).len() <= LISTED_MAX
        }),
{
}

// ---- the span -------------------------------------------------------------

pub open spec fn flat(s: Seq<char>) -> Seq<char> {
    text::swapped(s, '\n', ' ')
}

/// One line of at most `max` characters, and an ellipsis where some were left out.
pub open spec fn one_line(s: Seq<char>, max: int) -> Seq<char> {
    if s.len() <= max {
        flat(s)
    } else {
        flat(s.take(max)) + "…"@
    }
}

pub fn truncate(s: &str, max: usize) -> (r: String)
    ensures
        r@ == one_line(s@, max as int),
{
    if s.unicode_len() <= max {
        swap(s, '\n', ' ')
    } else {
        let head = lead(s, max);
        swap(head, '\n', ' ').concat("…")
    }
}

/// The highest sequence number among the facts of turns up to `cutoff`.
pub open spec fn boundary(events: Seq<LoggedEventView>, cutoff: u64) -> Option<u64>
    decreases events.len(),
{
    if events.len() == 0 {
        None
    } else {
        let before = boundary(events.drop_last(), cutoff);
        let e = events.last();
        if log::fact_turn(e.event) <= cutoff {
            match before {
                Some(b) => Some(
                    if e.seq >= b {
                        e.seq
                    } else {
                        b
                    },
                ),
                None => Some(e.seq),
            }
        } else {
            before
        }
    }
}

/// The last fold: how far it reached, and its summary.
pub open spec fn last_fold(events: Seq<LoggedEventView>) -> (u64, Option<Seq<char>>)
    decreases events.len(),
{
    if events.len() == 0 {
        (0, None)
    } else {
        match events.last().event {
            SessionEventView::Compacted { through, summary, .. } => (through, Some(summary)),
            _ => last_fold(events.drop_last()),
        }
    }
}

/// The turn was cut off by a person and taken back.
pub open spec fn undone(events: Seq<LoggedEventView>, turn: u64) -> bool {
    exists|i: int|
        0 <= i < events.len() && (#[trigger] events[i]).event == (SessionEventView::Interrupted {
            turn,
            undone: true,
        })
}

/// What a span is made of.
#[verifier::ext_equal]
pub struct Gathered {
    pub prior: Seq<Seq<char>>,
    pub prompts: Seq<Seq<char>>,
    pub tools: Seq<Seq<char>>,
}

pub open spec fn names_of(calls: Seq<ToolCallView>) -> Seq<Seq<char>> {
    Seq::new(calls.len(), |i: int| calls[i].name)
}

/// What the facts after `from` up to `through` hold, leaving out what was taken back.
/// `all` is the whole log.
pub open spec fn gathered(
    all: Seq<LoggedEventView>,
    events: Seq<LoggedEventView>,
    from: u64,
    through: u64,
) -> Gathered
    decreases events.len(),
{
    if events.len() == 0 {
        Gathered { prior: Seq::empty(), prompts: Seq::empty(), tools: Seq::empty() }
    } else {
        let g = gathered(all, events.drop_last(), from, through);
        let e = events.last();
        if e.seq <= from || e.seq > through {
            g
        } else {
            match e.event {
                SessionEventView::Injected {
                    text,
                    origin: InjectionOriginView::CompactionSummary,
                    ..
                } => Gathered { prior: g.prior.push(text), ..g },
                SessionEventView::UserMessage { turn, text, .. } => if undone(all, turn) {
                    g
                } else {
                    Gathered { prompts: g.prompts.push(one_line(text, 200)), ..g }
                },
                SessionEventView::AssistantMessage { turn, tool_calls, .. } => if undone(
                    all,
                    turn,
                ) {
                    g
                } else {
                    Gathered { tools: g.tools + names_of(tool_calls), ..g }
                },
                _ => g,
            }
        }
    }
}

/// The span a compaction would fold away, keeping the last `keep_turns` turns: nothing
/// where every turn is kept, or where nothing was asked or used since the last fold.
pub open spec fn settled(s: SessionLogView, keep_turns: u64) -> Option<CompactedSpanView> {
    if s.current_turn <= keep_turns {
        None
    } else {
        match boundary(s.events, (s.current_turn - keep_turns) as u64) {
            None => None,
            Some(through) => {
                let (from, summary) = last_fold(s.events);
                let g = gathered(s.events, s.events, from, through);
                if g.prompts.len() == 0 && g.tools.len() == 0 {
                    None
                } else {
                    Some(
                        CompactedSpanView {
                            through,
                            prior: match summary {
                                Some(t) => seq![t] + g.prior,
                                None => g.prior,
                            },
                            prompts: g.prompts,
                            tools: order::catalogued(g.tools),
                        },
                    )
                }
            },
        }
    }
}

fn find_boundary(events: &Vec<LoggedEvent>, cutoff: u64) -> (r: Option<u64>)
    ensures
        r == boundary(events.deep_view(), cutoff),
{
    let ghost all = events.deep_view();
    let mut r: Option<u64> = None;
    let mut i: usize = 0;
    assert(all.take(0) =~= Seq::<LoggedEventView>::empty());
    while i < events.len()
        invariant
            i <= events.len(),
            all == events.deep_view(),
            r == boundary(all.take(i as int), cutoff),
        decreases events.len() - i,
    {
        assert(all.take(i + 1).drop_last() =~= all.take(i as int));
        assert(all.take(i + 1).last() == events@[i as int].deep_view());
        let e = &events[i];
        if e.event.turn() <= cutoff {
            r = match r {
                Some(b) => Some(
                    if e.seq >= b {
                        e.seq
                    } else {
                        b
                    },
                ),
                None => Some(e.seq),
            };
        }
        i = i + 1;
    }
    assert(all.take(i as int) =~= all);
    r
}

fn find_fold(events: &Vec<LoggedEvent>) -> (r: (u64, Option<String>))
    ensures
        (r.0, r.1.deep_view()) == last_fold(events.deep_view()),
{
    let ghost all = events.deep_view();
    let mut i: usize = events.len();
    assert(all.take(i as int) =~= all);
    while i > 0
        invariant
            i <= events.len(),
            all == events.deep_view(),
            last_fold(all) == last_fold(all.take(i as int)),
        decreases i,
    {
        assert(all.take(i as int).drop_last() =~= all.take(i - 1));
        assert(all.take(i as int).last() == events@[i - 1].deep_view());
        match &events[i - 1].event {
            SessionEvent::Compacted { through, summary, .. } => {
                return (*through, Some(summary.clone()));
            },
            _ => {},
        }
        i = i - 1;
    }
    (0, None)
}

fn was_undone(events: &Vec<LoggedEvent>, turn: u64) -> (r: bool)
    ensures
        r == undone(events.deep_view(), turn),
{
    let ghost all = events.deep_view();
    let mut i: usize = 0;
    while i < events.len()
        invariant
            i <= events.len(),
            all == events.deep_view(),
            forall|k: int|
                0 <= k < i ==> (#[trigger] all[k]).event != (SessionEventView::Interrupted {
                    turn,
                    undone: true,
                }),
        decreases events.len() - i,
    {
        assert(all[i as int] == events@[i as int].deep_view());
        match &events[i].event {
            SessionEvent::Interrupted { turn: t, undone: u } => {
                if *t == turn && *u {
                    return true;
                }
            },
            _ => {},
        }
        i = i + 1;
    }
    false
}

pub(crate) fn put_names(out: &mut Vec<String>, calls: &Vec<ToolCall>)
    ensures
        final(out).deep_view() == old(out).deep_view() + names_of(calls.deep_view()),
{
    let ghost start = out.deep_view();
    let ghost all = names_of(calls.deep_view());
    let mut i: usize = 0;
    assert(out.deep_view() =~= start + all.take(0));
    while i < calls.len()
        invariant
            i <= calls.len(),
            all == names_of(calls.deep_view()),
            out.deep_view() == start + all.take(i as int),
        decreases calls.len() - i,
    {
        put(out, calls[i].name.clone());
        assert(out.deep_view() =~= start + all.take(i + 1));
        i = i + 1;
    }
    assert(all.take(i as int) =~= all);
}

/// The span a compaction would fold away at this depth.
pub fn settled_span(log: &SessionLog, keep_turns: u64) -> (r: Option<CompactedSpan>)
    ensures
        r.deep_view() == settled(log.deep_view(), keep_turns),
{
    if log.current_turn <= keep_turns {
        return None;
    }
    let cutoff = log.current_turn - keep_turns;
    let through = match find_boundary(&log.events, cutoff) {
        Some(b) => b,
        None => return None,
    };
    let (from, summary) = find_fold(&log.events);
    let mut found: Vec<String> = none_of();
    let mut prompts: Vec<String> = none_of();
    let mut tools: Vec<String> = none_of();
    let ghost all = log.events.deep_view();
    let mut i: usize = 0;
    assert(all.take(0) =~= Seq::<LoggedEventView>::empty());
    while i < log.events.len()
        invariant
            i <= log.events.len(),
            all == log.events.deep_view(),
            found.deep_view() == gathered(all, all.take(i as int), from, through).prior,
            prompts.deep_view() == gathered(all, all.take(i as int), from, through).prompts,
            tools.deep_view() == gathered(all, all.take(i as int), from, through).tools,
        decreases log.events.len() - i,
    {
        assert(all.take(i + 1).drop_last() =~= all.take(i as int));
        assert(all.take(i + 1).last() == log.events@[i as int].deep_view());
        let e = &log.events[i];
        if e.seq > from && e.seq <= through {
            match &e.event {
                SessionEvent::Injected {
                    text,
                    origin: InjectionOrigin::CompactionSummary,
                    ..
                } => {
                    put(&mut found, text.clone());
                },
                SessionEvent::UserMessage { turn, text, .. } => {
                    if !was_undone(&log.events, *turn) {
                        put(&mut prompts, truncate(text.as_str(), 200));
                    }
                },
                SessionEvent::AssistantMessage { turn, tool_calls, .. } => {
                    if !was_undone(&log.events, *turn) {
                        put_names(&mut tools, tool_calls);
                    }
                },
                _ => {},
            }
        }
        i = i + 1;
    }
    assert(all.take(i as int) =~= all);
    if prompts.len() == 0 && tools.len() == 0 {
        return None;
    }
    let prior = match summary {
        Some(t) => {
            let mut p = one_of(t);
            put_all(&mut p, found);
            p
        },
        None => found,
    };
    Some(CompactedSpan { through, prior, prompts, tools: sort_once(&tools) })
}

/// A turn still inside `keep_turns` is never folded: every fact the span reaches
/// belongs to an older turn, or to one no newer than the cut.
pub proof fn law_span_keeps_recent_turns(s: SessionLogView, keep_turns: u64)
    ensures
        settled(s, keep_turns) matches Some(span) ==> {
            &&& s.current_turn > keep_turns
            &&& exists|i: int|
                0 <= i < s.events.len() && (#[trigger] s.events[i]).seq == span.through
                    && log::fact_turn(s.events[i].event) <= s.current_turn - keep_turns
        },
{
    if s.current_turn > keep_turns {
        lemma_boundary_is_there(s.events, (s.current_turn - keep_turns) as u64);
    }
}

proof fn lemma_boundary_is_there(events: Seq<LoggedEventView>, cutoff: u64)
    ensures
        boundary(events, cutoff) matches Some(b) ==> exists|i: int|
            0 <= i < events.len() && (#[trigger] events[i]).seq == b && log::fact_turn(
                events[i].event,
            ) <= cutoff,
    decreases events.len(),
{
    if events.len() > 0 {
        let front = events.drop_last();
        lemma_boundary_is_there(front, cutoff);
        match boundary(events, cutoff) {
            Some(b) => {
                if log::fact_turn(events.last().event) <= cutoff && events.last().seq == b {
                    assert(events[events.len() - 1].seq == b);
                } else {
                    let k = choose|k: int|
                        0 <= k < front.len() && (#[trigger] front[k]).seq == b && log::fact_turn(
                            front[k].event,
                        ) <= cutoff;
                    assert(events[k] == front[k]);
                }
            },
            None => {},
        }
    }
}

/// Where the last fold reaches as far as the cut, there is no span.
pub proof fn law_a_fold_is_not_repeated(s: SessionLogView, keep_turns: u64)
    requires
        s.current_turn > keep_turns,
        boundary(s.events, (s.current_turn - keep_turns) as u64) matches Some(b) ==> b
            <= last_fold(s.events).0,
    ensures
        settled(s, keep_turns) is None,
{
    match boundary(s.events, (s.current_turn - keep_turns) as u64) {
        Some(b) => {
            lemma_nothing_between(s.events, s.events, last_fold(s.events).0, b);
        },
        None => {},
    }
}

/// The log after the span was folded: a fold that reaches as far is its last fact.
pub open spec fn after_fold(
    s: SessionLogView,
    span: CompactedSpanView,
    seq: u64,
    from: u64,
    summary: Seq<char>,
) -> SessionLogView {
    SessionLogView {
        events: s.events.push(
            LoggedEventView {
                seq,
                event: SessionEventView::Compacted {
                    turn: s.current_turn,
                    through: span.through,
                    summary,
                    from,
                },
            },
        ),
        ..s
    }
}

/// Nothing was asked and nothing used in the facts after `from` up to `through`.
pub open spec fn quiet(events: Seq<LoggedEventView>, from: u64, through: u64) -> bool {
    let g = gathered(events, events, from, through);
    g.prompts.len() == 0 && g.tools.len() == 0
}

/// Folding twice at the same depth finds nothing: once the span is folded, there is
/// none. So it is of every log where a turn is kept, and of every log whose facts
/// belong to turns up to its current one. What could be left is what a later turn asked
/// or used in between, where no turn is kept.
pub proof fn law_folding_twice_finds_nothing(
    s: SessionLogView,
    keep_turns: u64,
    seq: u64,
    from: u64,
    summary: Seq<char>,
)
    requires
        settled(s, keep_turns) is Some,
    ensures
        ({
            let span = settled(s, keep_turns)->0;
            let again = settled(after_fold(s, span, seq, from, summary), keep_turns);
            &&& again is None <==> keep_turns > 0 || quiet(s.events, span.through, seq)
            &&& (forall|i: int|
                0 <= i < s.events.len() ==> log::fact_turn((#[trigger] s.events[i]).event)
                    <= s.current_turn) ==> again is None
        }),
{
    let span = settled(s, keep_turns)->0;
    let t = after_fold(s, span, seq, from, summary);
    let cutoff = (s.current_turn - keep_turns) as u64;
    assert(t.events.drop_last() =~= s.events);
    assert(boundary(s.events, cutoff) == Some(span.through));
    assert(last_fold(t.events).0 == span.through);
    lemma_boundary_is_above(s.events, cutoff);
    assert forall|turn: u64| undone(s.events, turn) == undone(t.events, turn) by {
        lemma_undone(s.events, t.events.last(), turn);
        assert(s.events.push(t.events.last()) =~= t.events);
    }
    lemma_gathered_alike(s.events, t.events, s.events, span.through, seq);
    let b = boundary(t.events, cutoff)->0;
    assert(gathered(t.events, t.events, span.through, b) == gathered(
        t.events,
        s.events,
        span.through,
        b,
    ));
    if b <= span.through {
        lemma_nothing_between(t.events, s.events, span.through, b);
        if keep_turns == 0 {
            lemma_nothing_between(s.events, s.events, span.through, seq);
        }
    } else {
        assert(b == seq && keep_turns == 0);
    }
    if forall|i: int|
        0 <= i < s.events.len() ==> log::fact_turn((#[trigger] s.events[i]).event)
            <= s.current_turn {
        if keep_turns == 0 {
            assert forall|i: int| 0 <= i < s.events.len() implies (#[trigger] s.events[i]).seq
                <= span.through || s.events[i].seq > seq || s.events[i].event is Compacted by {
                assert(log::fact_turn(s.events[i].event) <= cutoff);
            }
            lemma_nothing_between(s.events, s.events, span.through, seq);
        }
    }
}

/// A fold takes no turn back.
proof fn lemma_undone(events: Seq<LoggedEventView>, e: LoggedEventView, turn: u64)
    requires
        e.event is Compacted,
    ensures
        undone(events, turn) == undone(events.push(e), turn),
{
    let more = events.push(e);
    if undone(events, turn) {
        let i = choose|i: int|
            0 <= i < events.len() && (#[trigger] events[i]).event
                == (SessionEventView::Interrupted { turn, undone: true });
        assert(more[i] == events[i]);
    }
    if undone(more, turn) {
        let i = choose|i: int|
            0 <= i < more.len() && (#[trigger] more[i]).event == (SessionEventView::Interrupted {
                turn,
                undone: true,
            });
        assert(more[i] == events[i]);
    }
}

proof fn lemma_gathered_alike(
    a: Seq<LoggedEventView>,
    b: Seq<LoggedEventView>,
    events: Seq<LoggedEventView>,
    from: u64,
    through: u64,
)
    requires
        forall|turn: u64| undone(a, turn) == undone(b, turn),
    ensures
        gathered(a, events, from, through) == gathered(b, events, from, through),
    decreases events.len(),
{
    if events.len() > 0 {
        lemma_gathered_alike(a, b, events.drop_last(), from, through);
    }
}

pub proof fn lemma_boundary_is_above(events: Seq<LoggedEventView>, cutoff: u64)
    ensures
        forall|i: int|
            0 <= i < events.len() && log::fact_turn((#[trigger] events[i]).event) <= cutoff
                ==> boundary(events, cutoff) is Some && events[i].seq <= boundary(
                events,
                cutoff,
            )->0,
    decreases events.len(),
{
    if events.len() > 0 {
        let front = events.drop_last();
        lemma_boundary_is_above(front, cutoff);
        assert forall|i: int|
            0 <= i < events.len() && log::fact_turn((#[trigger] events[i]).event)
                <= cutoff implies boundary(events, cutoff) is Some && events[i].seq <= boundary(
            events,
            cutoff,
        )->0 by {
            if i < front.len() {
                assert(front[i] == events[i]);
            }
        }
    }
}

/// Nothing is asked or used where every fact stands outside the span or is a fold.
proof fn lemma_nothing_between(
    all: Seq<LoggedEventView>,
    events: Seq<LoggedEventView>,
    from: u64,
    through: u64,
)
    requires
        through <= from || forall|i: int|
            0 <= i < events.len() ==> (#[trigger] events[i]).seq <= from || events[i].seq > through
                || events[i].event is Compacted,
    ensures
        gathered(all, events, from, through).prompts.len() == 0,
        gathered(all, events, from, through).tools.len() == 0,
    decreases events.len(),
{
    if events.len() > 0 {
        let front = events.drop_last();
        if through > from {
            assert forall|i: int| 0 <= i < front.len() implies (#[trigger] front[i]).seq <= from
                || front[i].seq > through || front[i].event is Compacted by {
                assert(front[i] == events[i]);
            }
            assert(events[events.len() - 1] == events.last());
        }
        lemma_nothing_between(all, front, from, through);
    }
}

/// The tools of a span are sorted, once each, and are exactly the ones used in it.
pub proof fn law_span_tools_are_catalogued(s: SessionLogView, keep_turns: u64)
    ensures
        settled(s, keep_turns) matches Some(span) ==> {
            let used = gathered(s.events, s.events, last_fold(s.events).0, span.through).tools;
            &&& forall|i: int, j: int|
                0 <= i < j < span.tools.len() ==> order::below(
                    #[trigger] span.tools[i],
                    #[trigger] span.tools[j],
                ) && span.tools[i] != span.tools[j]
            &&& forall|x: Seq<char>| #[trigger] span.tools.contains(x) <==> used.contains(x)
        },
{
    match settled(s, keep_turns) {
        Some(span) => {
            let used = gathered(s.events, s.events, last_fold(s.events).0, span.through).tools;
            assert(span.tools == order::catalogued(used));
            order::law_catalogued(used);
        },
        None => {},
    }
}

} // verus!

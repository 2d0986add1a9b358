//! Naming a session: how a name is made, and when.
//!
//! A name the person gave wins.
use crate::compaction;
use crate::data::{none_of, one_of, put};
use crate::events::{Committed, CommittedView, LoggedEvent, LoggedEventView, SessionEvent, SessionEventView};
use crate::handle;
use crate::message::{Message, MessageView};
use crate::table::Names;
use crate::text;
use crate::text::{bare, bare_end, join, lead, lines_of, lit, size, split_words, trim};
use crate::turn::{StreamEvent, StreamEventView};
use vstd::prelude::*;

verus! {

pub const QUOTES: &'static str = "\"'`“”「」";

pub const INNER_QUOTES: &'static str = "\"'`“”";

pub const DANGLING: &'static str = ".。,，:：;；!！、";

/// The first thing the person said.
pub open spec fn first_said(events: Seq<LoggedEventView>) -> Option<Seq<char>>
    decreases events.len(),
{
    if events.len() == 0 {
        None
    } else {
        match events[0].event {
            SessionEventView::UserMessage { text, .. } => Some(text),
            _ => first_said(events.skip(1)),
        }
    }
}

pub fn first_prompt(events: &Vec<LoggedEvent>) -> (r: Option<String>)
    ensures
        r.deep_view() == first_said(events.deep_view()),
{
    let ghost all = events.deep_view();
    let mut i: usize = 0;
    assert(all.skip(0) =~= all);
    while i < events.len()
        invariant
            i <= events.len(),
            all == events.deep_view(),
            first_said(all) == first_said(all.skip(i as int)),
        decreases events.len() - i,
    {
        assert(all.skip(i as int)[0] == events@[i as int].deep_view());
        assert(all.skip(i as int).skip(1) =~= all.skip(i + 1));
        match &events[i].event {
            SessionEvent::UserMessage { text, .. } => {
                return Some(text.clone());
            },
            _ => {},
        }
        i = i + 1;
    }
    assert(all.skip(i as int).len() == 0);
    None
}

/// The first line that says something, without the white space around it.
pub open spec fn first_words(lines: Seq<Seq<char>>) -> Option<Seq<char>>
    decreases lines.len(),
{
    if lines.len() == 0 {
        None
    } else if text::is_blank(lines[0]) {
        first_words(lines.skip(1))
    } else {
        Some(text::trimmed(lines[0]))
    }
}

/// The first so many words, one space apart.
pub open spec fn opening_words(line: Seq<char>, max_words: int) -> Seq<char> {
    let all = text::words(line);
    text::joined(
        if all.len() <= max_words {
            all
        } else {
            all.take(max_words)
        },
        " "@,
    )
}

/// A text over its limit, cut so that no character could take it over again.
pub open spec fn held(title: Seq<char>, max_bytes: int) -> Seq<char> {
    if text::bytes(title) > max_bytes {
        text::leading(title, max_bytes / 4)
    } else {
        title
    }
}

/// A candidate cut down to a title: one line, no quotes, bounded, nothing dangling.
pub open spec fn tidied(s: Seq<char>, max_words: int, max_bytes: int) -> Option<Seq<char>> {
    match first_words(text::lines(s)) {
        None => None,
        Some(line) => {
            let cut = held(opening_words(text::bared(line, QUOTES@), max_words), max_bytes);
            let title = text::bared(text::bared_end(cut, DANGLING@), INNER_QUOTES@);
            if title.len() == 0 {
                None
            } else {
                Some(title)
            }
        },
    }
}

fn find_words(lines: &Vec<String>) -> (r: Option<String>)
    ensures
        r.deep_view() == first_words(lines.deep_view()),
{
    let ghost all = lines.deep_view();
    let mut i: usize = 0;
    assert(all.skip(0) =~= all);
    while i < lines.len()
        invariant
            i <= lines.len(),
            all == lines.deep_view(),
            first_words(all) == first_words(all.skip(i as int)),
        decreases lines.len() - i,
    {
        assert(all.skip(i as int)[0] == lines@[i as int]@);
        assert(all.skip(i as int).skip(1) =~= all.skip(i + 1));
        let line = trim(lines[i].as_str());
        if !line.is_empty() {
            return Some(lit(line));
        }
        i = i + 1;
    }
    assert(all.skip(i as int).len() == 0);
    None
}

fn first_few(words: Vec<String>, n: usize) -> (out: Vec<String>)
    ensures
        out.deep_view() == (if words.deep_view().len() <= n {
            words.deep_view()
        } else {
            words.deep_view().take(n as int)
        }),
{
    if words.len() <= n {
        return words;
    }
    let ghost all = words.deep_view();
    let mut out: Vec<String> = none_of();
    let mut i: usize = 0;
    assert(out.deep_view() =~= all.take(0));
    while i < n
        invariant
            i <= n < words.len(),
            all == words.deep_view(),
            out.deep_view() == all.take(i as int),
        decreases n - i,
    {
        put(&mut out, words[i].clone());
        assert(out.deep_view() =~= all.take(i + 1));
        i = i + 1;
    }
    out
}

pub fn tidy(s: &str, max_words: usize, max_bytes: usize) -> (r: Option<String>)
    ensures
        r.deep_view() == tidied(s@, max_words as int, max_bytes as int),
{
    let line = match find_words(&lines_of(s)) {
        Some(line) => line,
        None => return None,
    };
    let title = join(&first_few(split_words(bare(line.as_str(), QUOTES)), max_words), " ");
    let cut = if size(title.as_str()) > max_bytes {
        lead(title.as_str(), max_bytes / 4)
    } else {
        title.as_str()
    };
    let title = bare(bare_end(cut, DANGLING), INNER_QUOTES);
    if title.is_empty() {
        None
    } else {
        Some(lit(title))
    }
}

// ---- from the first prompt ------------------------------------------------

/// Names from the first prompt, without a model.
#[derive(Clone, Copy, Debug, PartialEq, Eq, Structural)]
pub struct FirstPromptTitle {
    pub max_words: usize,
    pub max_bytes: usize,
}

impl Default for FirstPromptTitle {
    fn default() -> (t: Self)
        ensures
            t == (FirstPromptTitle { max_words: 8, max_bytes: 80 }),
    {
        FirstPromptTitle { max_words: 8, max_bytes: 80 }
    }
}

impl FirstPromptTitle {
    pub fn describe(&self) -> (r: &'static str)
        ensures
            r@ == "first prompt, truncated"@,
    {
        "first prompt, truncated"
    }

    pub fn title(&self, events: &Vec<LoggedEvent>) -> (r: Option<String>)
        ensures
            r.deep_view() == named(
                first_said(events.deep_view()),
                None,
                self.max_words as int,
                self.max_bytes as int,
            ),
    {
        match first_prompt(events) {
            Some(first) => tidy(first.as_str(), self.max_words, self.max_bytes),
            None => None,
        }
    }
}

// ---- from a model ---------------------------------------------------------

pub const TITLE_SYSTEM: &'static str = "You name conversations. Given the first message a person sent, reply with a short title for the conversation: at most eight words, in the person's own language, no quotes, no trailing period, and nothing but the title.";

/// Asks a utility model, from the first prompt, and falls back to the prompt itself.
#[derive(Clone, Copy, Debug, PartialEq, Eq, Structural)]
pub struct ModelTitle {
    pub max_words: usize,
    pub max_bytes: usize,
    pub max_tokens: u32,
    pub timeout_secs: u64,
}

impl Default for ModelTitle {
    fn default() -> (t: Self)
        ensures
            t == (ModelTitle { max_words: 8, max_bytes: 80, max_tokens: 32, timeout_secs: 15 }),
    {
        ModelTitle { max_words: 8, max_bytes: 80, max_tokens: 32, timeout_secs: 15 }
    }
}

/// What a stream says until it has said too much for a title.
pub open spec fn heard(events: Seq<StreamEventView>) -> Seq<char>
    decreases events.len(),
{
    if events.len() == 0 {
        Seq::empty()
    } else {
        let so_far = heard(events.drop_last());
        if text::bytes(so_far) > 512 {
            so_far
        } else {
            match events.last() {
                StreamEventView::TextDelta(t) => so_far + t,
                _ => so_far,
            }
        }
    }
}

pub open spec fn title_prompt(first: Seq<char>) -> Seq<MessageView> {
    seq![
        handle::system_message(TITLE_SYSTEM@),
        compaction::user_message(text::leading(first, 2000)),
    ]
}

/// The name a session gets: what the model came up with, where it came up with
/// anything, else the prompt's own words.
pub open spec fn named(
    first: Option<Seq<char>>,
    raw: Option<Seq<char>>,
    max_words: int,
    max_bytes: int,
) -> Option<Seq<char>> {
    match first {
        None => None,
        Some(first) => {
            let own = match raw {
                Some(r) => tidied(r, max_words, max_bytes),
                None => None,
            };
            match own {
                Some(t) => Some(t),
                None => tidied(first, max_words, max_bytes),
            }
        },
    }
}

impl ModelTitle {
    pub fn describe(&self) -> (r: &'static str)
        ensures
            r@ == "the utility model, from the first prompt; the first prompt itself when there is none"@,
    {
        "the utility model, from the first prompt; the first prompt itself when there is none"
    }

    /// What the model is asked.
    pub fn prompt(&self, first: &str) -> (out: Vec<Message>)
        ensures
            out.deep_view() == title_prompt(first@),
    {
        let mut out = one_of(Message::system(lit(TITLE_SYSTEM)));
        put(&mut out, Message::user(lit(lead(first, 2000))));
        assert(out.deep_view() =~= title_prompt(first@));
        out
    }

    /// What the model said.
    pub fn hear(&self, events: &Vec<StreamEvent>) -> (r: String)
        ensures
            r@ == heard(events.deep_view()),
    {
        let ghost all = events.deep_view();
        let mut out = String::new();
        let mut i: usize = 0;
        assert(all.take(0) =~= Seq::<StreamEventView>::empty());
        while i < events.len()
            invariant
                i <= events.len(),
                all == events.deep_view(),
                out@ == heard(all.take(i as int)),
            decreases events.len() - i,
        {
            assert(all.take(i + 1).drop_last() =~= all.take(i as int));
            assert(all.take(i + 1).last() == events@[i as int].deep_view());
            if size(out.as_str()) <= 512 {
                match &events[i] {
                    StreamEvent::TextDelta(t) => {
                        out.append(t.as_str());
                    },
                    _ => {},
                }
            }
            i = i + 1;
        }
        assert(all.take(i as int) =~= all);
        out
    }

    /// The name, once the model was asked; `raw` is what it said, where it answered in
    /// time.
    pub fn title(&self, events: &Vec<LoggedEvent>, raw: Option<String>) -> (r: Option<String>)
        ensures
            r.deep_view() == named(
                first_said(events.deep_view()),
                raw.deep_view(),
                self.max_words as int,
                self.max_bytes as int,
            ),
    {
        let first = match first_prompt(events) {
            Some(first) => first,
            None => return None,
        };
        let own = match raw {
            Some(r) => tidy(r.as_str(), self.max_words, self.max_bytes),
            None => None,
        };
        match own {
            Some(t) => Some(t),
            None => tidy(first.as_str(), self.max_words, self.max_bytes),
        }
    }
}

// ---- when -----------------------------------------------------------------

/// The name a log gives its session: the newest.
pub open spec fn title_in(events: Seq<LoggedEventView>) -> Option<Seq<char>>
    decreases events.len(),
{
    if events.len() == 0 {
        None
    } else {
        match events.last().event {
            SessionEventView::Titled { title, .. } => Some(title),
            _ => title_in(events.drop_last()),
        }
    }
}
/// The sessions being asked about after a fact, and whether to ask about its own.
pub open spec fn asked(
    asking: Set<Seq<char>>,
    c: CommittedView,
    able: bool,
    events: Seq<LoggedEventView>,
) -> (Set<Seq<char>>, bool) {
    if c.event is UserMessage && able && title_in(events) is None && !asking.contains(c.session) {
        (asking.insert(c.session), true)
    } else {
        (asking, false)
    }
}

/// What is logged once an answer has come.
pub open spec fn titled(
    title: Option<Seq<char>>,
    events: Seq<LoggedEventView>,
    turn: u64,
) -> Option<SessionEventView> {
    match title {
        Some(t) => if title_in(events) is None {
            Some(SessionEventView::Titled { turn, title: t })
        } else {
            None
        },
        None => None,
    }
}

pub fn title_of(events: &Vec<LoggedEvent>) -> (r: Option<String>)
    ensures
        r.deep_view() == title_in(events.deep_view()),
{
    let ghost all = events.deep_view();
    let mut i: usize = events.len();
    assert(all.take(i as int) =~= all);
    while i > 0
        invariant
            i <= events.len(),
            all == events.deep_view(),
            title_in(all) == title_in(all.take(i as int)),
        decreases i,
    {
        assert(all.take(i as int).drop_last() =~= all.take(i - 1));
        assert(all.take(i as int).last() == events@[i - 1].deep_view());
        match &events[i - 1].event {
            SessionEvent::Titled { title, .. } => {
                return Some(title.clone());
            },
            _ => {},
        }
        i = i - 1;
    }
    None
}

/// Names each session once it has something to be named after, with one request in
/// flight for each.
pub struct TitleWatch {
    in_flight: Names,
}

impl TitleWatch {
    /// The sessions a name is being asked for.
    pub closed spec fn asking(&self) -> Set<Seq<char>> {
        self.in_flight@
    }

    pub fn new() -> (w: Self)
        ensures
            w.asking() == Set::<Seq<char>>::empty(),
    {
        TitleWatch { in_flight: Names::new() }
    }

    /// Whether a fact is the moment to ask for a name. `able` says whether there is
    /// anyone to ask and an agent to name.
    pub fn hear(&mut self, c: &Committed, able: bool, events: &Vec<LoggedEvent>) -> (ask: bool)
        ensures
            (final(self).asking(), ask) == asked(
                old(self).asking(),
                c.deep_view(),
                able,
                events.deep_view(),
            ),
    {
        match &c.event {
            SessionEvent::UserMessage { .. } => {},
            _ => return false,
        }
        if !able || title_of(events).is_some() {
            return false;
        }
        let fresh = self.in_flight.insert(c.session.clone());
        assert(!fresh ==> self.asking() =~= old(self).asking());
        fresh
    }

    /// The fact a name becomes, unless the session was named meanwhile.
    pub fn answered(
        &mut self,
        session: &str,
        title: Option<String>,
        events: &Vec<LoggedEvent>,
        turn: u64,
    ) -> (fact: Option<SessionEvent>)
        ensures
            final(self).asking() == old(self).asking().remove(session@),
            fact.deep_view() == titled(title.deep_view(), events.deep_view(), turn),
    {
        let _ = self.in_flight.remove(session);
        match title {
            None => None,
            Some(title) => {
                if title_of(events).is_some() {
                    None
                } else {
                    Some(SessionEvent::Titled { turn, title })
                }
            },
        }
    }
}

// ---- laws -----------------------------------------------------------------

proof fn lemma_word_chars(s: Seq<char>, i: int, k: int)
    requires
        0 <= i < text::words(s).len(),
        0 <= k < text::words(s)[i].len(),
    ensures
        !text::is_white(text::words(s)[i][k]),
    decreases s.len(),
{
    if s.len() > 0 {
        if text::is_white(s[0]) {
            lemma_word_chars(s.skip(1), i, k);
        } else {
            lemma_run_chars(s);
            let n = text::run(s) as int;
            if i == 0 {
                assert(text::words(s)[0] == s.take(n));
                assert(s.take(n)[k] == s[k]);
            } else {
                assert(text::words(s)[i] == text::words(s.skip(n))[i - 1]);
                lemma_word_chars(s.skip(n), i - 1, k);
            }
        }
    }
}

proof fn lemma_run_chars(s: Seq<char>)
    ensures
        text::run(s) <= s.len(),
        s.len() > 0 && !text::is_white(s[0]) ==> text::run(s) > 0,
        forall|i: int| 0 <= i < text::run(s) ==> !text::is_white(#[trigger] s[i]),
    decreases s.len(),
{
    if s.len() > 0 && !text::is_white(s[0]) {
        lemma_run_chars(s.skip(1));
        assert forall|i: int| 0 <= i < text::run(s) implies !text::is_white(#[trigger] s[i]) by {
            if i > 0 {
                assert(s[i] == s.skip(1)[i - 1]);
            }
        }
    }
}

proof fn lemma_joined_chars(parts: Seq<Seq<char>>, sep: Seq<char>, c: char)
    requires
        !sep.contains(c),
        forall|i: int| 0 <= i < parts.len() ==> !(#[trigger] parts[i]).contains(c),
    ensures
        !text::joined(parts, sep).contains(c),
    decreases parts.len(),
{
    reveal_with_fuel(text::joined, 2);
    if parts.len() > 1 {
        let front = parts.drop_last();
        assert forall|i: int| 0 <= i < front.len() implies !(#[trigger] front[i]).contains(c) by {
            assert(front[i] == parts[i]);
        }
        lemma_joined_chars(front, sep, c);
        let a = text::joined(front, sep);
        let b = a + sep;
        let s = text::joined(parts, sep);
        assert(!parts[parts.len() - 1].contains(c));
        assert forall|i: int| 0 <= i < s.len() implies s[i] != c by {
            if i < a.len() {
                assert(s[i] == a[i]);
                assert(a.contains(a[i]));
            } else if i < b.len() {
                assert(s[i] == sep[i - a.len()]);
                assert(sep.contains(sep[i - a.len()]));
            } else {
                let last = parts[parts.len() - 1];
                assert(s[i] == last[i - b.len()]);
                assert(last.contains(last[i - b.len()]));
            }
        }
    } else if parts.len() == 1 {
        assert(!parts[0].contains(c));
    }
}

proof fn lemma_bared_end_chars(s: Seq<char>, set: Seq<char>, c: char)
    requires
        !s.contains(c),
    ensures
        !text::bared_end(s, set).contains(c),
    decreases s.len(),
{
    if s.len() > 0 && set.contains(s.last()) {
        assert forall|i: int| 0 <= i < s.drop_last().len() implies s.drop_last()[i] != c by {
            assert(s.contains(s[i]));
        }
        lemma_bared_end_chars(s.drop_last(), set, c);
    }
}

proof fn lemma_bared_start_chars(s: Seq<char>, set: Seq<char>, c: char)
    requires
        !s.contains(c),
    ensures
        !text::bared_start(s, set).contains(c),
    decreases s.len(),
{
    if s.len() > 0 && set.contains(s[0]) {
        assert forall|i: int| 0 <= i < s.skip(1).len() implies s.skip(1)[i] != c by {
            assert(s.contains(s[i + 1]));
        }
        lemma_bared_start_chars(s.skip(1), set, c);
    }
}

/// A title is one line, whatever it was cut from, and never empty.
pub proof fn law_a_title_is_one_line(s: Seq<char>, max_words: int, max_bytes: int)
    requires
        max_words >= 0,
        max_bytes >= 0,
    ensures
        tidied(s, max_words, max_bytes) matches Some(t) ==> t.len() > 0 && !t.contains('\n'),
{
    match first_words(text::lines(s)) {
        None => {},
        Some(line) => {
            let inner = text::bared(line, QUOTES@);
            let all = text::words(inner);
            let some = if all.len() <= max_words {
                all
            } else {
                all.take(max_words)
            };
            assert forall|i: int| 0 <= i < some.len() implies !(#[trigger] some[i]).contains(
                '\n',
            ) by {
                assert(some[i] == all[i]);
                assert forall|k: int| 0 <= k < all[i].len() implies all[i][k] != '\n' by {
                    lemma_word_chars(inner, i, k);
                    assert(text::is_white('\n'));
                }
            }
            reveal_strlit(" ");
            assert(" "@[0] == ' ');
            lemma_joined_chars(some, " "@, '\n');
            let title = opening_words(inner, max_words);
            let cut = held(title, max_bytes);
            assert forall|k: int| 0 <= k < cut.len() implies cut[k] != '\n' by {
                assert(cut[k] == title[k]);
                assert(title.contains(title[k]));
            }
            lemma_bared_end_chars(cut, DANGLING@, '\n');
            let a = text::bared_end(cut, DANGLING@);
            lemma_bared_start_chars(a, INNER_QUOTES@, '\n');
            lemma_bared_end_chars(text::bared_start(a, INNER_QUOTES@), INNER_QUOTES@, '\n');
        },
    }
}

/// A text without its first or its last character has no more words, and no more bytes.
proof fn lemma_shorter(s: Seq<char>)
    requires
        s.len() > 0,
    ensures
        text::words(s.skip(1)).len() <= text::words(s).len(),
        text::words(s.drop_last()).len() <= text::words(s).len(),
        text::bytes(s.skip(1)) <= text::bytes(s),
        text::bytes(s.drop_last()) <= text::bytes(s),
    decreases s.len(),
{
    let rest = s.skip(1);
    let front = s.drop_last();
    assert(s.drop_first() =~= rest);
    if s.len() > 1 {
        lemma_shorter(rest);
        assert(rest.drop_last() =~= front.skip(1));
        assert(front.drop_first() =~= front.skip(1));
        assert(front[0] == s[0]);
    }
    lemma_run_chars(s);
    if text::is_white(s[0]) {
        if s.len() == 1 {
            assert(text::words(front).len() == 0);
        }
    } else {
        let n = text::run(s) as int;
        assert(text::words(s).len() == 1 + text::words(s.skip(n)).len());
        if n == 1 {
            assert(s.skip(n) == rest);
        } else {
            assert(rest.skip(n - 1) =~= s.skip(n));
            assert(!text::is_white(s[1]));
            assert(text::words(rest).len() == 1 + text::words(s.skip(n)).len());
        }
        if n < s.len() {
            assert(text::is_white(s[n])) by {
                lemma_run_ends(s);
            }
            assert forall|i: int| 0 <= i < n implies !text::is_white(#[trigger] front[i]) by {
                assert(front[i] == s[i]);
            }
            if n < front.len() {
                assert(front[n] == s[n]);
            }
            text::lemma_run(front, n);
            assert(front.skip(n) =~= s.skip(n).drop_last());
            lemma_shorter(s.skip(n));
        } else {
            assert forall|i: int| 0 <= i < n - 1 implies !text::is_white(#[trigger] front[i]) by {
                assert(front[i] == s[i]);
            }
            text::lemma_run(front, n - 1);
            if n > 1 {
                assert(text::words(front.skip(n - 1)).len() == 0);
                assert(text::words(front).len() == 1);
            }
        }
    }
}

proof fn lemma_run_ends(s: Seq<char>)
    ensures
        text::run(s) < s.len() ==> text::is_white(s[text::run(s) as int]),
    decreases s.len(),
{
    if s.len() > 0 && !text::is_white(s[0]) {
        lemma_run_ends(s.skip(1));
    }
}

proof fn lemma_leading_is_shorter(s: Seq<char>, k: int)
    requires
        0 <= k <= s.len(),
    ensures
        text::words(s.take(k)).len() <= text::words(s).len(),
    decreases s.len() - k,
{
    if k < s.len() {
        lemma_leading_is_shorter(s, k + 1);
        lemma_shorter(s.take(k + 1));
        assert(s.take(k + 1).drop_last() =~= s.take(k));
    } else {
        assert(s.take(k) =~= s);
    }
}

/// A character takes at most four bytes.
proof fn lemma_four_bytes(s: Seq<char>)
    ensures
        text::bytes(s) <= 4 * s.len(),
    decreases s.len(),
{
    if s.len() > 0 {
        lemma_four_bytes(s.drop_first());
    }
}

proof fn lemma_bared_end(s: Seq<char>, set: Seq<char>)
    ensures
        ({
            let t = text::bared_end(s, set);
            &&& text::words(t).len() <= text::words(s).len()
            &&& text::bytes(t) <= text::bytes(s)
            &&& t.len() > 0 ==> !set.contains(t.last()) && t[0] == s[0]
        }),
    decreases s.len(),
{
    if s.len() > 0 && set.contains(s.last()) {
        lemma_shorter(s);
        lemma_bared_end(s.drop_last(), set);
    }
}

proof fn lemma_bared_start(s: Seq<char>, set: Seq<char>)
    ensures
        ({
            let t = text::bared_start(s, set);
            &&& text::words(t).len() <= text::words(s).len()
            &&& text::bytes(t) <= text::bytes(s)
            &&& t.len() > 0 ==> !set.contains(t[0])
        }),
    decreases s.len(),
{
    if s.len() > 0 && set.contains(s[0]) {
        lemma_shorter(s);
        lemma_bared_start(s.skip(1), set);
    }
}

/// Two texts put together have no more words than the two have.
proof fn lemma_words_together(a: Seq<char>, b: Seq<char>)
    ensures
        text::words(a + b).len() <= text::words(a).len() + text::words(b).len(),
    decreases a.len(),
{
    if a.len() == 0 {
        assert(a + b =~= b);
    } else if text::is_white(a[0]) {
        assert((a + b).skip(1) =~= a.skip(1) + b);
        lemma_words_together(a.skip(1), b);
    } else {
        lemma_run_chars(a);
        lemma_run_chars(b);
        lemma_run_ends(a);
        lemma_run_ends(b);
        let n = text::run(a) as int;
        let m = if n < a.len() {
            n
        } else {
            n + text::run(b)
        };
        assert forall|i: int| 0 <= i < m implies !text::is_white(#[trigger] (a + b)[i]) by {
            if i < n {
                assert((a + b)[i] == a[i]);
            } else {
                assert((a + b)[i] == b[i - n]);
            }
        }
        text::lemma_run(a + b, m);
        if n < a.len() {
            assert((a + b).skip(n) =~= a.skip(n) + b);
            lemma_words_together(a.skip(n), b);
        } else {
            assert((a + b).skip(m) =~= b.skip(m - n));
            assert(text::words(a.skip(n)).len() == 0);
            if m == n {
                assert(b.skip(0) =~= b);
            }
        }
    }
}

proof fn lemma_words_joined(parts: Seq<Seq<char>>)
    requires
        forall|i: int, k: int|
            0 <= i < parts.len() && 0 <= k < parts[i].len() ==> !text::is_white(
                #[trigger] parts[i][k],
            ),
    ensures
        text::words(text::joined(parts, " "@)).len() <= parts.len(),
    decreases parts.len(),
{
    if parts.len() > 0 {
        let last = parts[parts.len() - 1];
        assert(text::words(last).len() <= 1) by {
            assert forall|k: int| 0 <= k < last.len() implies !text::is_white(#[trigger] last[k]) by {
                assert(last[k] == parts[parts.len() - 1][k]);
            }
            text::lemma_run(last, last.len() as int);
            assert(text::words(last.skip(last.len() as int)).len() == 0);
        }
        if parts.len() > 1 {
            let front = parts.drop_last();
            assert forall|i: int, k: int|
                0 <= i < front.len() && 0 <= k < front[i].len() implies !text::is_white(
                #[trigger] front[i][k],
            ) by {
                assert(front[i][k] == parts[i][k]);
            }
            lemma_words_joined(front);
            let before = text::joined(front, " "@);
            reveal_strlit(" ");
            assert(text::is_white(" "@[0]));
            assert(text::words(" "@.skip(1)).len() == 0);
            lemma_words_together(before, " "@);
            lemma_words_together(before + " "@, last);
        }
    }
}

/// A title is bounded, and not in quotes: it has at most so many words and takes at
/// most so many bytes, and neither end of it is a quotation mark.
pub proof fn law_a_title_is_bounded(s: Seq<char>, max_words: int, max_bytes: int)
    requires
        max_words >= 0,
        max_bytes >= 0,
    ensures
        tidied(s, max_words, max_bytes) matches Some(t) ==> {
            &&& text::words(t).len() <= max_words
            &&& text::bytes(t) <= max_bytes
            &&& !INNER_QUOTES@.contains(t[0])
            &&& !INNER_QUOTES@.contains(t.last())
        },
{
    match first_words(text::lines(s)) {
        None => {},
        Some(line) => {
            let inner = text::bared(line, QUOTES@);
            let all = text::words(inner);
            let some = if all.len() <= max_words {
                all
            } else {
                all.take(max_words)
            };
            assert forall|i: int, k: int|
                0 <= i < some.len() && 0 <= k < some[i].len() implies !text::is_white(
                #[trigger] some[i][k],
            ) by {
                assert(some[i] == all[i]);
                lemma_word_chars(inner, i, k);
            }
            lemma_words_joined(some);
            let title = opening_words(inner, max_words);
            let cut = held(title, max_bytes);
            if text::bytes(title) > max_bytes && title.len() > max_bytes / 4 {
                lemma_leading_is_shorter(title, max_bytes / 4);
            }
            if text::bytes(title) > max_bytes {
                lemma_four_bytes(cut);
            }
            let a = text::bared_end(cut, DANGLING@);
            let b = text::bared_start(a, INNER_QUOTES@);
            lemma_bared_end(cut, DANGLING@);
            lemma_bared_start(a, INNER_QUOTES@);
            lemma_bared_end(b, INNER_QUOTES@);
        },
    }
}

/// A session with a first prompt that says something always gets a name, whatever the
/// model does.
pub proof fn law_a_session_always_gets_a_name(
    first: Seq<char>,
    raw: Option<Seq<char>>,
    max_words: int,
    max_bytes: int,
)
    requires
        tidied(first, max_words, max_bytes) is Some,
    ensures
        named(Some(first), raw, max_words, max_bytes) is Some,
        named(Some(first), None, max_words, max_bytes) == tidied(first, max_words, max_bytes),
{
}

} // verus!

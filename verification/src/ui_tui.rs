//! The full-screen front end: what the transcript looks like, and what a key does.
//!
//! Lines are drawn from the session log, so a redraw shows what the model saw.
use crate::data::{none_of, one_of, put, put_all, Dup};
use crate::events::{
    InjectionOrigin, InjectionOriginView, LoggedEvent, LoggedEventView, SessionEvent,
    SessionEventView, StopReason, ToolCall, ToolCallView,
};
use crate::log;
use crate::protocol::AgentStatus;
use crate::text;
use crate::text::{
    column, debug, ellipsize, first_line_of, lines_of, lit, number, of_chars, repeat, same, trim,
};
use crate::ui::pick;
use crate::ui_jsonrpc;
use vstd::prelude::*;

verus! {

/// How a line looks.
#[derive(Clone, Copy, Debug, PartialEq, Eq, Structural)]
pub enum Style {
    User,
    Assistant,
    Tool,
    Error,
    Meta,
}

impl DeepView for Style {
    type V = Style;

    open spec fn deep_view(&self) -> Style {
        *self
    }
}

impl Dup for Style {
    fn dup(&self) -> (r: Self) {
        *self
    }
}

/// One line of the transcript.
#[derive(Debug, PartialEq, Eq)]
pub struct Line {
    pub text: String,
    pub style: Style,
}

/// What a [`Line`] holds.
#[verifier::ext_equal]
pub struct LineView {
    pub text: Seq<char>,
    pub style: Style,
}

impl DeepView for Line {
    type V = LineView;

    open spec fn deep_view(&self) -> LineView {
        LineView {
            text: self.text.deep_view(),
            style: self.style.deep_view(),
        }
    }
}

impl Dup for Line {
    fn dup(&self) -> (r: Self) {
        Line {
            text: self.text.dup(),
            style: self.style.dup(),
        }
    }
}

impl Clone for Line {
    fn clone(&self) -> (r: Self)
        ensures
            r.deep_view() == self.deep_view(),
    {
        self.dup()
    }
}

/// A key that was pressed.
#[derive(Clone, Copy, Debug, PartialEq, Eq, Structural)]
pub enum Key {
    /// A character; `control` where the control key, and nothing else, was held.
    Char { c: char, control: bool },
    Enter,
    Backspace,
    Esc,
    Other,
}

impl DeepView for Key {
    type V = Key;

    open spec fn deep_view(&self) -> Key {
        *self
    }
}

impl Dup for Key {
    fn dup(&self) -> (r: Self) {
        *self
    }
}

/// What the keyboard tells the draw loop.
#[derive(Debug, PartialEq, Eq)]
pub enum Signal {
    Redraw,
    /// This goes to the agent.
    Deliver(String),
    Quit,
    Cancel,
}

/// What a [`Signal`] holds.
#[verifier::ext_equal]
pub enum SignalView {
    Redraw,
    Deliver(Seq<char>),
    Quit,
    Cancel,
}

impl DeepView for Signal {
    type V = SignalView;

    open spec fn deep_view(&self) -> SignalView {
        match self {
            Signal::Redraw => SignalView::Redraw,
            Signal::Deliver(x) => SignalView::Deliver(x.deep_view()),
            Signal::Quit => SignalView::Quit,
            Signal::Cancel => SignalView::Cancel,
        }
    }
}

impl Dup for Signal {
    fn dup(&self) -> (r: Self) {
        match self {
            Signal::Redraw => Signal::Redraw,
            Signal::Deliver(x) => Signal::Deliver(x.dup()),
            Signal::Quit => Signal::Quit,
            Signal::Cancel => Signal::Cancel,
        }
    }
}

impl Clone for Signal {
    fn clone(&self) -> (r: Self)
        ensures
            r.deep_view() == self.deep_view(),
    {
        self.dup()
    }
}

/// What the draw loop does next.
#[derive(Clone, Copy, Debug, PartialEq, Eq, Structural)]
pub enum TuiStep {
    /// Run the work that is owed.
    Drive,
    /// Wait for a signal.
    Wait,
    Cancel,
    End,
}

impl DeepView for TuiStep {
    type V = TuiStep;

    open spec fn deep_view(&self) -> TuiStep {
        *self
    }
}

impl Dup for TuiStep {
    fn dup(&self) -> (r: Self) {
        *self
    }
}

/// Where an answer stands.
#[derive(Debug, PartialEq, Eq)]
pub enum Typing {
    More,
    /// The person is finished.
    Done,
    Declined,
}

/// What a [`Typing`] holds.
#[verifier::ext_equal]
pub enum TypingView {
    More,
    Done,
    Declined,
}

impl DeepView for Typing {
    type V = TypingView;

    open spec fn deep_view(&self) -> TypingView {
        match self {
            Typing::More => TypingView::More,
            Typing::Done => TypingView::Done,
            Typing::Declined => TypingView::Declined,
        }
    }
}

impl Dup for Typing {
    fn dup(&self) -> (r: Self) {
        match self {
            Typing::More => Typing::More,
            Typing::Done => Typing::Done,
            Typing::Declined => Typing::Declined,
        }
    }
}

impl Clone for Typing {
    fn clone(&self) -> (r: Self)
        ensures
            r.deep_view() == self.deep_view(),
    {
        self.dup()
    }
}

pub open spec fn style_code(s: Style) -> Seq<char> {
    match s {
        Style::User => "\u{1b}[34m"@,
        Style::Assistant => "\u{1b}[0m"@,
        Style::Tool => "\u{1b}[36m"@,
        Style::Error => "\u{1b}[31m"@,
        Style::Meta => "\u{1b}[2m"@,
    }
}

impl Style {
    pub fn ansi(self) -> (r: &'static str)
        ensures
            r@ == style_code(self),
    {
        match self {
            Style::User => "\u{1b}[34m",
            Style::Assistant => "\u{1b}[0m",
            Style::Tool => "\u{1b}[36m",
            Style::Error => "\u{1b}[31m",
            Style::Meta => "\u{1b}[2m",
        }
    }
}

// ---- the transcript -------------------------------------------------------

/// The most characters of a call or a result that a line shows.
pub const SHOWN: usize = 90;

/// Who injected something, by name.
pub open spec fn origin_text(o: InjectionOriginView) -> Seq<char> {
    match o {
        InjectionOriginView::Memory => "Memory"@,
        InjectionOriginView::Reminder => "Reminder"@,
        InjectionOriginView::Continuation => "Continuation"@,
        InjectionOriginView::InternalNudge => "InternalNudge"@,
        InjectionOriginView::CompactionSummary => "CompactionSummary"@,
        InjectionOriginView::Peer { from } => "Peer { from: "@ + text::debugged(from) + " }"@,
        InjectionOriginView::TeamNote { member } => "TeamNote { member: "@ + text::debugged(member)
            + " }"@,
        InjectionOriginView::PersonToMember { member } => "PersonToMember { member: "@
            + text::debugged(member) + " }"@,
    }
}

pub fn show_origin(o: &InjectionOrigin) -> (r: String)
    ensures
        r@ == origin_text(o.deep_view()),
{
    match o {
        InjectionOrigin::Memory => lit("Memory"),
        InjectionOrigin::Reminder => lit("Reminder"),
        InjectionOrigin::Continuation => lit("Continuation"),
        InjectionOrigin::InternalNudge => lit("InternalNudge"),
        InjectionOrigin::CompactionSummary => lit("CompactionSummary"),
        InjectionOrigin::Peer { from } => lit("Peer { from: ").concat(
            debug(from.as_str()).as_str(),
        ).concat(" }"),
        InjectionOrigin::TeamNote { member } => lit("TeamNote { member: ").concat(
            debug(member.as_str()).as_str(),
        ).concat(" }"),
        InjectionOrigin::PersonToMember { member } => lit("PersonToMember { member: ").concat(
            debug(member.as_str()).as_str(),
        ).concat(" }"),
    }
}

pub open spec fn said_lines(lines: Seq<Seq<char>>) -> Seq<LineView> {
    Seq::new(lines.len(), |i: int| LineView { text: lines[i], style: Style::Assistant })
}

pub open spec fn call_lines(calls: Seq<ToolCallView>) -> Seq<LineView> {
    Seq::new(
        calls.len(),
        |i: int|
            LineView {
                text: "⚒ "@ + calls[i].name + " "@ + text::ellipsized(calls[i].arguments, 90),
                style: Style::Tool,
            },
    )
}

pub open spec fn result_line(content: Seq<char>, is_error: bool) -> LineView {
    LineView {
        text: "  "@ + (if is_error {
            "✗"@
        } else {
            "✓"@
        }) + " "@ + text::ellipsized(text::first_line(content), 90),
        style: if is_error {
            Style::Error
        } else {
            Style::Tool
        },
    }
}

pub open spec fn end_line(stop: StopReason, error: Option<Seq<char>>) -> LineView {
    LineView {
        text: match error {
            Some(e) => "— "@ + log::stop_name(stop) + ": "@ + e,
            None => "— "@ + log::stop_name(stop),
        },
        style: Style::Meta,
    }
}

/// The lines an event shows as.
pub open spec fn lines_for(e: SessionEventView) -> Seq<LineView> {
    match e {
        SessionEventView::UserMessage { text, .. } => seq![
            LineView { text: "› "@ + text, style: Style::User },
        ],
        SessionEventView::Injected { text, origin, .. } => seq![
            LineView {
                text: "["@ + origin_text(origin) + "] "@ + text::first_line(text),
                style: Style::Meta,
            },
        ],
        SessionEventView::AssistantMessage { text, tool_calls, .. } => said_lines(
            text::lines(text),
        ) + call_lines(tool_calls),
        SessionEventView::ToolResultLogged { content, is_error, .. } => seq![
            result_line(content, is_error),
        ],
        SessionEventView::TurnEnd { stop, error, .. } => seq![end_line(stop, error)],
        _ => Seq::empty(),
    }
}

/// The lines a log shows as.
pub open spec fn transcript(log: Seq<LoggedEventView>) -> Seq<LineView>
    decreases log.len(),
{
    if log.len() == 0 {
        Seq::empty()
    } else {
        transcript(log.drop_last()) + lines_for(log.last().event)
    }
}

fn show_said(text: &str) -> (out: Vec<Line>)
    ensures
        out.deep_view() == said_lines(text::lines(text@)),
{
    let lines = lines_of(text);
    let ghost all = said_lines(lines.deep_view());
    let mut out: Vec<Line> = none_of();
    let mut i: usize = 0;
    assert(out.deep_view() =~= all.take(0));
    while i < lines.len()
        invariant
            i <= lines.len(),
            all == said_lines(lines.deep_view()),
            out.deep_view() == all.take(i as int),
        decreases lines.len() - i,
    {
        put(&mut out, Line { text: lines[i].clone(), style: Style::Assistant });
        assert(out.deep_view() =~= all.take(i + 1));
        i = i + 1;
    }
    assert(all.take(i as int) =~= all);
    out
}

fn show_calls(calls: &Vec<ToolCall>) -> (out: Vec<Line>)
    ensures
        out.deep_view() == call_lines(calls.deep_view()),
{
    let ghost all = call_lines(calls.deep_view());
    let mut out: Vec<Line> = none_of();
    let mut i: usize = 0;
    assert(out.deep_view() =~= all.take(0));
    while i < calls.len()
        invariant
            i <= calls.len(),
            all == call_lines(calls.deep_view()),
            out.deep_view() == all.take(i as int),
        decreases calls.len() - i,
    {
        let shown = ellipsize(calls[i].arguments.as_str(), SHOWN);
        let text = lit("⚒ ").concat(calls[i].name.as_str()).concat(" ").concat(shown.as_str());
        put(&mut out, Line { text, style: Style::Tool });
        assert(out.deep_view() =~= all.take(i + 1));
        i = i + 1;
    }
    assert(all.take(i as int) =~= all);
    out
}

fn show_result(content: &str, is_error: bool) -> (r: Line)
    ensures
        r.deep_view() == result_line(content@, is_error),
{
    let mark = if is_error {
        "✗"
    } else {
        "✓"
    };
    let shown = ellipsize(first_line_of(content).as_str(), SHOWN);
    Line {
        text: lit("  ").concat(mark).concat(" ").concat(shown.as_str()),
        style: if is_error {
            Style::Error
        } else {
            Style::Tool
        },
    }
}

fn show_end(stop: StopReason, error: &Option<String>) -> (r: Line)
    ensures
        r.deep_view() == end_line(stop, error.deep_view()),
{
    let text = match error {
        Some(e) => lit("— ").concat(stop.name()).concat(": ").concat(e.as_str()),
        None => lit("— ").concat(stop.name()),
    };
    Line { text, style: Style::Meta }
}

/// The lines an event shows as.
pub fn show(e: &SessionEvent) -> (out: Vec<Line>)
    ensures
        out.deep_view() == lines_for(e.deep_view()),
{
    match e {
        SessionEvent::UserMessage { text, .. } => one_of(
            Line { text: lit("› ").concat(text.as_str()), style: Style::User },
        ),
        SessionEvent::Injected { text, origin, .. } => one_of(
            Line {
                text: lit("[").concat(show_origin(origin).as_str()).concat("] ").concat(
                    first_line_of(text.as_str()).as_str(),
                ),
                style: Style::Meta,
            },
        ),
        SessionEvent::AssistantMessage { text, tool_calls, .. } => {
            let mut out = show_said(text.as_str());
            put_all(&mut out, show_calls(tool_calls));
            out
        },
        SessionEvent::ToolResultLogged { content, is_error, .. } => one_of(
            show_result(content.as_str(), *is_error),
        ),
        SessionEvent::TurnEnd { stop, error, .. } => one_of(show_end(*stop, error)),
        _ => none_of(),
    }
}

/// The log as lines.
pub fn render(log: &Vec<LoggedEvent>) -> (out: Vec<Line>)
    ensures
        out.deep_view() == transcript(log.deep_view()),
{
    let ghost all = log.deep_view();
    let mut out: Vec<Line> = none_of();
    let mut i: usize = 0;
    assert(all.take(0).len() == 0);
    while i < log.len()
        invariant
            i <= log.len(),
            all == log.deep_view(),
            out.deep_view() == transcript(all.take(i as int)),
        decreases log.len() - i,
    {
        put_all(&mut out, show(&log[i].event));
        assert(all.take(i + 1).drop_last() =~= all.take(i as int));
        assert(all.take(i + 1).last() == log@[i as int].deep_view());
        i = i + 1;
    }
    assert(all.take(i as int) =~= all);
    out
}

// ---- the screen -----------------------------------------------------------

/// The line that says whose screen this is.
pub open spec fn header_text(
    id: u64,
    status: AgentStatus,
    title: Option<Seq<char>>,
    cols: nat,
) -> Seq<char> {
    "\u{1b}[7m "@ + text::columned(
        " atomcode harness · #"@ + text::decimal(id as nat) + " "@ + ui_jsonrpc::status_name(status)
            + (match title {
            Some(t) => " · "@ + t,
            None => Seq::empty(),
        }),
        cols,
    ) + "\u{1b}[0m\r\n"@
}

fn show_header(id: u64, status: AgentStatus, title: &Option<String>, cols: usize) -> (r: String)
    ensures
        r@ == header_text(id, status, title.deep_view(), cols as nat),
{
    let tail = match title {
        Some(t) => lit(" · ").concat(t.as_str()),
        None => String::new(),
    };
    assert(title is None ==> tail@ =~= Seq::empty());
    let line = lit(" atomcode harness · #").concat(number(id).as_str()).concat(" ").concat(
        status.name(),
    ).concat(tail.as_str());
    lit("\u{1b}[7m ").concat(column(line.as_str(), cols).as_str()).concat("\u{1b}[0m\r\n")
}

pub open spec fn line_text(l: LineView, cols: int) -> Seq<char> {
    style_code(l.style) + text::ellipsized(l.text, cols) + "\u{1b}[0m\r\n"@
}

/// The lines one below the other.
pub open spec fn stacked(lines: Seq<LineView>, cols: int) -> Seq<char>
    decreases lines.len(),
{
    if lines.len() == 0 {
        Seq::empty()
    } else {
        stacked(lines.drop_last(), cols) + line_text(lines.last(), cols)
    }
}

/// So many empty lines.
pub open spec fn gaps(n: nat) -> Seq<char>
    decreases n,
{
    if n == 0 {
        Seq::empty()
    } else {
        gaps((n - 1) as nat) + "\r\n"@
    }
}

/// The last lines that fit, and empty ones below them.
pub open spec fn body_text(lines: Seq<LineView>, cols: int, rows: nat) -> Seq<char> {
    if lines.len() >= rows {
        stacked(lines.skip(lines.len() - rows), cols)
    } else {
        stacked(lines, cols) + gaps((rows - lines.len()) as nat)
    }
}

fn show_body(lines: &Vec<Line>, cols: usize, rows: usize) -> (r: String)
    ensures
        r@ == body_text(lines.deep_view(), cols as int, rows as nat),
{
    let start: usize = lines.len().saturating_sub(rows);
    let ghost shown = lines.deep_view().skip(start as int);
    let mut out = String::new();
    let mut i: usize = start;
    assert(shown.take(0).len() == 0);
    assert(out@ =~= stacked(shown.take(0), cols as int));
    while i < lines.len()
        invariant
            start <= i <= lines.len(),
            shown == lines.deep_view().skip(start as int),
            out@ == stacked(shown.take(i - start), cols as int),
        decreases lines.len() - i,
    {
        let line = lit(lines[i].style.ansi()).concat(
            ellipsize(lines[i].text.as_str(), cols).as_str(),
        ).concat("\u{1b}[0m\r\n");
        out.append(line.as_str());
        assert(shown.take(i + 1 - start).drop_last() =~= shown.take(i - start));
        assert(shown.take(i + 1 - start).last() == lines@[i as int].deep_view());
        i = i + 1;
    }
    assert(shown.take(i - start) =~= shown);
    let had: usize = lines.len() - start;
    let ghost upper = out@;
    assert(upper =~= upper + gaps(0));
    let mut j: usize = had;
    while j < rows
        invariant
            had <= j,
            j <= rows || j == had,
            out@ == upper + gaps((j - had) as nat),
        decreases rows - j,
    {
        out.append("\r\n");
        assert(gaps((j + 1 - had) as nat) =~= gaps((j - had) as nat) + "\r\n"@);
        assert(out@ =~= upper + gaps((j + 1 - had) as nat));
        j = j + 1;
    }
    proof {
        let all = lines.deep_view();
        if all.len() >= rows {
            assert(shown == all.skip(all.len() - rows));
            assert(upper + gaps(0) =~= upper);
        } else {
            assert(shown =~= all);
        }
    }
    out
}

pub open spec fn hint(status: AgentStatus) -> Seq<char> {
    match status {
        AgentStatus::Working => "working — type to steer, ctrl-c to stop"@,
        AgentStatus::Idle => "ctrl-d to quit"@,
    }
}

/// The whole screen: a header, the newest lines, a rule, and the line being typed.
pub open spec fn screen(
    lines: Seq<LineView>,
    id: u64,
    status: AgentStatus,
    title: Option<Seq<char>>,
    typed: Seq<char>,
    cols: u16,
    rows: u16,
) -> Seq<char> {
    "\u{1b}[H\u{1b}[2J"@ + header_text(id, status, title, cols as nat) + body_text(
        lines,
        cols as int,
        if rows >= 3 {
            (rows - 3) as nat
        } else {
            0
        },
    ) + "\u{1b}[2m"@ + text::repeated('─', cols as nat) + "\u{1b}[0m\r\n"@ + "› "@ + typed
        + "\u{1b}[2m  ("@ + hint(status) + ")\u{1b}[0m"@
}

/// Draws the screen.
pub fn draw(
    lines: &Vec<Line>,
    id: u64,
    status: AgentStatus,
    title: &Option<String>,
    typed: &str,
    cols: u16,
    rows: u16,
) -> (r: String)
    ensures
        r@ == screen(lines.deep_view(), id, status, title.deep_view(), typed@, cols, rows),
{
    let body: usize = (rows as usize).saturating_sub(3);
    let word = match status {
        AgentStatus::Working => "working — type to steer, ctrl-c to stop",
        AgentStatus::Idle => "ctrl-d to quit",
    };
    lit("\u{1b}[H\u{1b}[2J").concat(show_header(id, status, title, cols as usize).as_str()).concat(
        show_body(lines, cols as usize, body).as_str(),
    ).concat("\u{1b}[2m").concat(repeat('─', cols as usize).as_str()).concat(
        "\u{1b}[0m\r\n",
    ).concat("› ").concat(typed).concat("\u{1b}[2m  (").concat(word).concat(")\u{1b}[0m")
}

// ---- the keyboard ---------------------------------------------------------

/// What a key does to the line being typed.
pub open spec fn typed(line: Seq<char>, key: Key) -> Seq<char> {
    match key {
        Key::Char { c, control } => if control && (c == 'c' || c == 'd') {
            line
        } else {
            line.push(c)
        },
        Key::Enter => Seq::empty(),
        Key::Backspace => if line.len() == 0 {
            line
        } else {
            line.drop_last()
        },
        _ => line,
    }
}

/// What a key tells the draw loop.
pub open spec fn signalled(line: Seq<char>, key: Key) -> SignalView {
    match key {
        Key::Char { c, control } => if control && c == 'c' {
            SignalView::Cancel
        } else if control && c == 'd' {
            SignalView::Quit
        } else {
            SignalView::Redraw
        },
        Key::Esc => SignalView::Cancel,
        Key::Enter => {
            let text = text::trimmed(line);
            if text.len() == 0 {
                SignalView::Redraw
            } else if text == "/quit"@ || text == "/exit"@ {
                SignalView::Quit
            } else {
                SignalView::Deliver(text)
            }
        },
        _ => SignalView::Redraw,
    }
}

/// The line being typed.
pub struct Keys {
    buffer: Vec<char>,
}

impl Keys {
    pub closed spec fn line(&self) -> Seq<char> {
        self.buffer@
    }

    pub fn new() -> (k: Self)
        ensures
            k.line() == Seq::<char>::empty(),
    {
        Keys { buffer: Vec::new() }
    }

    /// The line so far.
    pub fn text(&self) -> (r: String)
        ensures
            r@ == self.line(),
    {
        of_chars(&self.buffer)
    }

    /// Takes a key.
    pub fn press(&mut self, key: Key) -> (s: Signal)
        ensures
            final(self).line() == typed(old(self).line(), key),
            s.deep_view() == signalled(old(self).line(), key),
    {
        match key {
            Key::Char { c, control } => {
                if control && c == 'c' {
                    Signal::Cancel
                } else if control && c == 'd' {
                    Signal::Quit
                } else {
                    self.buffer.push(c);
                    Signal::Redraw
                }
            },
            Key::Esc => Signal::Cancel,
            Key::Enter => {
                let line = self.text();
                self.buffer = Vec::new();
                let text = trim(line.as_str());
                if text.is_empty() {
                    Signal::Redraw
                } else if same(text, "/quit") || same(text, "/exit") {
                    Signal::Quit
                } else {
                    Signal::Deliver(lit(text))
                }
            },
            Key::Backspace => {
                if self.buffer.len() > 0 {
                    self.buffer.pop();
                }
                Signal::Redraw
            },
            Key::Other => Signal::Redraw,
        }
    }
}

/// What the draw loop does once it has drawn: what is owed is done first, and a signal
/// is waited for only where nothing is.
pub fn next(owed: bool) -> (s: TuiStep)
    ensures
        s == (if owed {
            TuiStep::Drive
        } else {
            TuiStep::Wait
        }),
{
    if owed {
        TuiStep::Drive
    } else {
        TuiStep::Wait
    }
}
/// What the loop does about a signal.
pub open spec fn heard_step(signal: Option<SignalView>) -> Option<TuiStep> {
    match signal {
        None => Some(TuiStep::End),
        Some(SignalView::Quit) => Some(TuiStep::End),
        Some(SignalView::Cancel) => Some(TuiStep::Cancel),
        Some(_) => None,
    }
}

/// What a signal leads to; none is the end of the keyboard. Anything else is drawn
/// again.
pub fn heard(signal: &Option<Signal>) -> (s: Option<TuiStep>)
    ensures
        s == heard_step(signal.deep_view()),
{
    match signal {
        None => Some(TuiStep::End),
        Some(Signal::Quit) => Some(TuiStep::End),
        Some(Signal::Cancel) => Some(TuiStep::Cancel),
        Some(_) => None,
    }
}

// ---- questions ------------------------------------------------------------

/// The answer to a question, as it is typed.
pub struct Answer {
    buffer: Vec<char>,
}

/// What a key does to an answer: the control key makes no difference.
pub open spec fn answered(line: Seq<char>, key: Key) -> (Seq<char>, TypingView) {
    match key {
        Key::Enter => (line, TypingView::Done),
        Key::Esc => (line, TypingView::Declined),
        Key::Backspace => (
            if line.len() == 0 {
                line
            } else {
                line.drop_last()
            },
            TypingView::More,
        ),
        Key::Char { c, .. } => (line.push(c), TypingView::More),
        Key::Other => (line, TypingView::More),
    }
}

impl Answer {
    pub closed spec fn line(&self) -> Seq<char> {
        self.buffer@
    }

    pub fn new() -> (k: Self)
        ensures
            k.line() == Seq::<char>::empty(),
    {
        Answer { buffer: Vec::new() }
    }

    /// Takes a key.
    pub fn press(&mut self, key: Key) -> (t: Typing)
        ensures
            (final(self).line(), t.deep_view()) == answered(old(self).line(), key),
    {
        match key {
            Key::Enter => Typing::Done,
            Key::Esc => Typing::Declined,
            Key::Backspace => {
                if self.buffer.len() > 0 {
                    self.buffer.pop();
                }
                Typing::More
            },
            Key::Char { c, .. } => {
                self.buffer.push(c);
                Typing::More
            },
            Key::Other => Typing::More,
        }
    }

    /// The option the answer picks.
    pub fn picks(&self, options: &Vec<String>) -> (r: Option<String>)
        ensures
            r.deep_view() == crate::ui::picked(
                options.deep_view(),
                text::lowered(text::trimmed(self.line())),
            ),
    {
        pick(options, of_chars(&self.buffer).as_str())
    }
}

/// A question on the alternate screen.
pub fn show_question(question: &str, options: &Vec<String>) -> (r: String)
    ensures
        r@ == "\r\n\u{1b}[33m"@ + question@ + "\u{1b}[0m\r\n\u{1b}[33m["@ + text::joined(
            options.deep_view(),
            "/"@,
        ) + "]\u{1b}[0m "@,
{
    lit("\r\n\u{1b}[33m").concat(question).concat("\u{1b}[0m\r\n\u{1b}[33m[").concat(
        text::join(options, "/").as_str(),
    ).concat("]\u{1b}[0m ")
}

// ---- laws -----------------------------------------------------------------

/// A redraw shows the conversation, not what was printed before: the lines of a log
/// that grew begin with the lines it had.
pub proof fn law_the_transcript_only_grows(log: Seq<LoggedEventView>, more: Seq<LoggedEventView>)
    ensures
        transcript(log).is_prefix_of(transcript(log + more)),
        transcript(log + more) == transcript(log) + transcript(more),
    decreases more.len(),
{
    if more.len() == 0 {
        assert(log + more =~= log);
        assert(transcript(log) + transcript(more) =~= transcript(log));
    } else {
        law_the_transcript_only_grows(log, more.drop_last());
        assert((log + more).drop_last() =~= log + more.drop_last());
        assert((log + more).last() == more.last());
        assert(transcript(log) + transcript(more) =~= transcript(log) + transcript(
            more.drop_last(),
        ) + lines_for(more.last().event));
    }
}

/// Typing a character and taking it back leaves the line as it was.
pub proof fn law_backspace_undoes(line: Seq<char>, c: char)
    ensures
        typed(typed(line, Key::Char { c, control: false }), Key::Backspace) == line,
{
    assert(line.push(c).drop_last() =~= line);
}

} // verus!

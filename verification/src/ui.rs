//! The terminal front end: what a typed line means, and what is printed.
use crate::data::{none_of, one_of, put, Dup};
use crate::events::StopReason;
use crate::text;
use crate::text::{column, join, lit, lower, number, same, starts_with, strip_prefix, trim};
use crate::turn::{TurnOutcome, TurnOutcomeView};
use vstd::prelude::*;

verus! {

/// What a line typed at the prompt asks for.
#[derive(Debug, PartialEq, Eq)]
pub enum Command {
    /// It was blank.
    Nothing,
    Exit,
    Help,
    Rows,
    Dump,
    Audit,
    Stop,
    Agents,
    Seams,
    Title,
    /// The layer in this file is to be applied.
    Patch(String),
    /// It begins like a command and is none.
    Unknown,
    /// It is for the agent.
    Say(String),
}

/// What a [`Command`] holds.
#[verifier::ext_equal]
pub enum CommandView {
    Nothing,
    Exit,
    Help,
    Rows,
    Dump,
    Audit,
    Stop,
    Agents,
    Seams,
    Title,
    Patch(Seq<char>),
    Unknown,
    Say(Seq<char>),
}

impl DeepView for Command {
    type V = CommandView;

    open spec fn deep_view(&self) -> CommandView {
        match self {
            Command::Nothing => CommandView::Nothing,
            Command::Exit => CommandView::Exit,
            Command::Help => CommandView::Help,
            Command::Rows => CommandView::Rows,
            Command::Dump => CommandView::Dump,
            Command::Audit => CommandView::Audit,
            Command::Stop => CommandView::Stop,
            Command::Agents => CommandView::Agents,
            Command::Seams => CommandView::Seams,
            Command::Title => CommandView::Title,
            Command::Patch(x) => CommandView::Patch(x.deep_view()),
            Command::Unknown => CommandView::Unknown,
            Command::Say(x) => CommandView::Say(x.deep_view()),
        }
    }
}

impl Dup for Command {
    fn dup(&self) -> (r: Self) {
        match self {
            Command::Nothing => Command::Nothing,
            Command::Exit => Command::Exit,
            Command::Help => Command::Help,
            Command::Rows => Command::Rows,
            Command::Dump => Command::Dump,
            Command::Audit => Command::Audit,
            Command::Stop => Command::Stop,
            Command::Agents => Command::Agents,
            Command::Seams => Command::Seams,
            Command::Title => Command::Title,
            Command::Patch(x) => Command::Patch(x.dup()),
            Command::Unknown => Command::Unknown,
            Command::Say(x) => Command::Say(x.dup()),
        }
    }
}

impl Clone for Command {
    fn clone(&self) -> (r: Self)
        ensures
            r.deep_view() == self.deep_view(),
    {
        self.dup()
    }
}

/// What the reader makes of a line.
#[derive(Debug, PartialEq, Eq)]
pub enum Input {
    Nothing,
    /// The loop is to handle it.
    Command(String),
    /// It goes straight to the agent.
    Deliver(String),
}

/// What a [`Input`] holds.
#[verifier::ext_equal]
pub enum InputView {
    Nothing,
    Command(Seq<char>),
    Deliver(Seq<char>),
}

impl DeepView for Input {
    type V = InputView;

    open spec fn deep_view(&self) -> InputView {
        match self {
            Input::Nothing => InputView::Nothing,
            Input::Command(x) => InputView::Command(x.deep_view()),
            Input::Deliver(x) => InputView::Deliver(x.deep_view()),
        }
    }
}

impl Dup for Input {
    fn dup(&self) -> (r: Self) {
        match self {
            Input::Nothing => Input::Nothing,
            Input::Command(x) => Input::Command(x.dup()),
            Input::Deliver(x) => Input::Deliver(x.dup()),
        }
    }
}

impl Clone for Input {
    fn clone(&self) -> (r: Self)
        ensures
            r.deep_view() == self.deep_view(),
    {
        self.dup()
    }
}

/// What the loop does next.
#[derive(Debug, PartialEq, Eq)]
pub enum ReplStep {
    /// Run the work that is owed.
    Drive,
    /// Wait for input, after a prompt where one is due.
    Read { prompt: bool },
    /// Handle this command.
    Handle(String),
    End,
}

/// What a [`ReplStep`] holds.
#[verifier::ext_equal]
pub enum ReplStepView {
    Drive,
    Read { prompt: bool },
    Handle(Seq<char>),
    End,
}

impl DeepView for ReplStep {
    type V = ReplStepView;

    open spec fn deep_view(&self) -> ReplStepView {
        match self {
            ReplStep::Drive => ReplStepView::Drive,
            ReplStep::Read { prompt } => ReplStepView::Read {
                prompt: prompt.deep_view(),
            },
            ReplStep::Handle(x) => ReplStepView::Handle(x.deep_view()),
            ReplStep::End => ReplStepView::End,
        }
    }
}

impl Dup for ReplStep {
    fn dup(&self) -> (r: Self) {
        match self {
            ReplStep::Drive => ReplStep::Drive,
            ReplStep::Read { prompt } => ReplStep::Read {
                prompt: prompt.dup(),
            },
            ReplStep::Handle(x) => ReplStep::Handle(x.dup()),
            ReplStep::End => ReplStep::End,
        }
    }
}

impl Clone for ReplStep {
    fn clone(&self) -> (r: Self)
        ensures
            r.deep_view() == self.deep_view(),
    {
        self.dup()
    }
}

/// A row of the configuration.
#[derive(Debug, PartialEq, Eq)]
pub struct Row {
    pub id: String,
    pub plugin: String,
    pub enabled: bool,
}

/// What a [`Row`] holds.
#[verifier::ext_equal]
pub struct RowView {
    pub id: Seq<char>,
    pub plugin: Seq<char>,
    pub enabled: bool,
}

impl DeepView for Row {
    type V = RowView;

    open spec fn deep_view(&self) -> RowView {
        RowView {
            id: self.id.deep_view(),
            plugin: self.plugin.deep_view(),
            enabled: self.enabled.deep_view(),
        }
    }
}

impl Dup for Row {
    fn dup(&self) -> (r: Self) {
        Row {
            id: self.id.dup(),
            plugin: self.plugin.dup(),
            enabled: self.enabled.dup(),
        }
    }
}

impl Clone for Row {
    fn clone(&self) -> (r: Self)
        ensures
            r.deep_view() == self.deep_view(),
    {
        self.dup()
    }
}

pub const BANNER: &'static str = "\u{1b}[2matomcode harness — interactive terminal session. /help for commands.\u{1b}[0m";

pub const HELP: &'static str = "\u{1b}[2m  /agents        live agents\n  /seams         filled service slots\n  /rows          config rows, and which are enabled\n  /patch <FILE>  apply a patch layer to the RUNNING tree\n  /dump          the running tree in full\n  /audit         check the running composition\n  /title         this session's name\n  /stop          cancel the running turn\n  /exit          leave\u{1b}[0m";

pub const PROMPT: &'static str = "› ";

pub const NO_CONTROL: &'static str = "\u{1b}[2m  no control service\u{1b}[0m";

pub const UNKNOWN_COMMAND: &'static str = "\u{1b}[2m  unknown command; /help\u{1b}[0m";

// ---- reading a line -------------------------------------------------------

/// `s` without `head` in front of it, however often it stands there.
pub open spec fn without_heads(s: Seq<char>, head: Seq<char>) -> Seq<char>
    decreases s.len(),
{
    if head.len() > 0 && head.is_prefix_of(s) {
        without_heads(s.skip(head.len() as int), head)
    } else {
        s
    }
}

/// What a line asks for.
pub open spec fn meant(line: Seq<char>) -> CommandView {
    let t = text::trimmed(line);
    if t.len() == 0 {
        CommandView::Nothing
    } else if t == "/exit"@ || t == "/quit"@ {
        CommandView::Exit
    } else if t == "/help"@ {
        CommandView::Help
    } else if t == "/rows"@ {
        CommandView::Rows
    } else if t == "/dump"@ {
        CommandView::Dump
    } else if t == "/audit"@ {
        CommandView::Audit
    } else if t == "/stop"@ {
        CommandView::Stop
    } else if t == "/agents"@ {
        CommandView::Agents
    } else if t == "/seams"@ {
        CommandView::Seams
    } else if t == "/title"@ {
        CommandView::Title
    } else if "/patch "@.is_prefix_of(t) {
        CommandView::Patch(text::trimmed(without_heads(t, "/patch "@)))
    } else if t[0] == '/' {
        CommandView::Unknown
    } else {
        CommandView::Say(t)
    }
}

fn strip_heads(s: &str, head: &str) -> (r: String)
    requires
        head@.len() > 0,
    ensures
        r@ == without_heads(s@, head@),
{
    let mut rest = lit(s);
    let mut left = rest.as_str().unicode_len();
    while starts_with(rest.as_str(), head)
        invariant
            head@.len() > 0,
            left == rest@.len(),
            without_heads(s@, head@) == without_heads(rest@, head@),
        decreases left,
    {
        let next = match strip_prefix(rest.as_str(), head) {
            Some(t) => lit(t),
            None => lit(rest.as_str()),
        };
        assert(next@ =~= rest@.skip(head@.len() as int));
        rest = next;
        left = rest.as_str().unicode_len();
    }
    rest
}

/// What a line asks for.
pub fn command(line: &str) -> (c: Command)
    ensures
        c.deep_view() == meant(line@),
{
    let t = trim(line);
    proof {
        reveal_strlit("/patch ");
        reveal_strlit("/");
    }
    if t.is_empty() {
        Command::Nothing
    } else if same(t, "/exit") || same(t, "/quit") {
        Command::Exit
    } else if same(t, "/help") {
        Command::Help
    } else if same(t, "/rows") {
        Command::Rows
    } else if same(t, "/dump") {
        Command::Dump
    } else if same(t, "/audit") {
        Command::Audit
    } else if same(t, "/stop") {
        Command::Stop
    } else if same(t, "/agents") {
        Command::Agents
    } else if same(t, "/seams") {
        Command::Seams
    } else if same(t, "/title") {
        Command::Title
    } else if starts_with(t, "/patch ") {
        Command::Patch(lit(trim(strip_heads(t, "/patch ").as_str())))
    } else if t.get_char(0) == '/' {
        Command::Unknown
    } else {
        Command::Say(lit(t))
    }
}
/// What the loop does next, where `owed` says that a turn is, and whether to prompt after.
pub open spec fn next_step(needs_prompt: bool, owed: bool) -> (bool, ReplStepView) {
    (
        owed,
        if owed {
            ReplStepView::Drive
        } else {
            ReplStepView::Read { prompt: needs_prompt }
        },
    )
}

/// What the loop does about what was read, and whether to prompt after.
pub open spec fn heard_step(needs_prompt: bool, signal: Option<InputView>) -> (
    bool,
    Option<ReplStepView>,
) {
    match signal {
        None => (needs_prompt, Some(ReplStepView::End)),
        Some(InputView::Command(c)) => (true, Some(ReplStepView::Handle(c))),
        Some(_) => (needs_prompt, None),
    }
}

/// What the reader makes of a line: a message is delivered at once, so that it joins
/// the turn in flight.
pub open spec fn sorted_out(line: Seq<char>) -> InputView {
    let t = text::trimmed(line);
    if t.len() == 0 {
        InputView::Nothing
    } else if t[0] == '/' {
        InputView::Command(t)
    } else {
        InputView::Deliver(t)
    }
}

pub fn sort_out(line: &str) -> (i: Input)
    ensures
        i.deep_view() == sorted_out(line@),
{
    let t = trim(line);
    if t.is_empty() {
        Input::Nothing
    } else if t.get_char(0) == '/' {
        Input::Command(lit(t))
    } else {
        Input::Deliver(lit(t))
    }
}

// ---- the loop -------------------------------------------------------------

/// A line-oriented session.
#[derive(Clone, Copy, Debug, PartialEq, Eq, Structural)]
pub struct Repl {
    pub needs_prompt: bool,
}

impl Repl {
    pub fn new() -> (r: Self)
        ensures
            r.needs_prompt,
    {
        Repl { needs_prompt: true }
    }

    /// What is owed is done before anything is read.
    pub fn next(&mut self, owed: bool) -> (s: ReplStep)
        ensures
            (final(self).needs_prompt, s.deep_view()) == next_step(old(self).needs_prompt, owed),
    {
        if owed {
            self.needs_prompt = true;
            ReplStep::Drive
        } else {
            let prompt = self.needs_prompt;
            self.needs_prompt = false;
            ReplStep::Read { prompt }
        }
    }

    /// What a signal of the reader leads to; none is the end of input.
    pub fn heard(&mut self, signal: Option<Input>) -> (s: Option<ReplStep>)
        ensures
            (final(self).needs_prompt, s.deep_view()) == heard_step(
                old(self).needs_prompt,
                signal.deep_view(),
            ),
    {
        match signal {
            None => Some(ReplStep::End),
            Some(Input::Command(c)) => {
                self.needs_prompt = true;
                Some(ReplStep::Handle(c))
            },
            Some(_) => None,
        }
    }
}

/// What is printed after a turn.
pub open spec fn after_turn_lines(o: TurnOutcomeView) -> Seq<Seq<char>> {
    (match o.error {
        Some(e) => seq!["\u{1b}[31m"@ + e + "\u{1b}[0m"@],
        None => Seq::empty(),
    }) + (if o.stop is Cancelled {
        seq!["\u{1b}[2mstopped\u{1b}[0m"@]
    } else {
        Seq::empty()
    })
}

pub fn after_turn(o: &TurnOutcome) -> (out: Vec<String>)
    ensures
        out.deep_view() == after_turn_lines(o.deep_view()),
{
    let mut out: Vec<String> = none_of();
    match &o.error {
        Some(e) => {
            put(&mut out, lit("\u{1b}[31m").concat(e.as_str()).concat("\u{1b}[0m"));
        },
        None => {},
    }
    match o.stop {
        StopReason::Cancelled => {
            put(&mut out, lit("\u{1b}[2mstopped\u{1b}[0m"));
        },
        _ => {},
    }
    assert(out.deep_view() =~= after_turn_lines(o.deep_view()));
    out
}

// ---- what commands print --------------------------------------------------

/// A dimmed line.
pub open spec fn dim(s: Seq<char>) -> Seq<char> {
    "\u{1b}[2m  "@ + s + "\u{1b}[0m"@
}

pub fn dimmed(s: &str) -> (r: String)
    ensures
        r@ == dim(s@),
{
    lit("\u{1b}[2m  ").concat(s).concat("\u{1b}[0m")
}

pub open spec fn row_text(r: RowView) -> Seq<char> {
    dim(
        (if r.enabled {
            " "@
        } else {
            "·"@
        }) + " "@ + text::columned(r.id, 28) + " "@ + r.plugin,
    )
}

pub open spec fn row_texts(rows: Seq<RowView>) -> Seq<Seq<char>> {
    Seq::new(rows.len(), |i: int| row_text(rows[i]))
}

/// The rows, where there is a tree to show.
pub open spec fn rows_shown(rows: Option<Seq<RowView>>) -> Seq<Seq<char>> {
    match rows {
        Some(list) => row_texts(list),
        None => seq![NO_CONTROL@],
    }
}

/// The rows, where there is anyone to ask for them.
pub fn show_rows(rows: &Option<Vec<Row>>) -> (out: Vec<String>)
    ensures
        out.deep_view() == rows_shown(rows.deep_view()),
{
    match rows {
        None => one_of(lit(NO_CONTROL)),
        Some(list) => {
            let ghost all = row_texts(list.deep_view());
            let mut out: Vec<String> = none_of();
            let mut i: usize = 0;
            assert(out.deep_view() =~= all.take(0));
            while i < list.len()
                invariant
                    i <= list.len(),
                    all == row_texts(list.deep_view()),
                    rows.deep_view() == Some(list.deep_view()),
                    out.deep_view() == all.take(i as int),
                decreases list.len() - i,
            {
                let r = &list[i];
                let mark = if r.enabled {
                    " "
                } else {
                    "·"
                };
                let line = lit(mark).concat(" ").concat(column(r.id.as_str(), 28).as_str()).concat(
                    " ",
                ).concat(r.plugin.as_str());
                put(&mut out, dimmed(line.as_str()));
                assert(out.deep_view() =~= all.take(i + 1));
                i = i + 1;
            }
            assert(all.take(i as int) =~= all);
            out
        },
    }
}

pub open spec fn finding_texts(findings: Seq<Seq<char>>) -> Seq<Seq<char>> {
    Seq::new(findings.len(), |i: int| "\u{1b}[33m  "@ + findings[i] + "\u{1b}[0m"@)
}

/// What an audit found, where there is a tree to look at.
pub open spec fn audit_shown(findings: Option<Seq<Seq<char>>>) -> Seq<Seq<char>> {
    match findings {
        Some(list) => if list.len() == 0 {
            seq![dim("consistent"@)]
        } else {
            finding_texts(list)
        },
        None => seq![NO_CONTROL@],
    }
}

/// What a check of the composition found.
pub fn show_audit(findings: &Option<Vec<String>>) -> (out: Vec<String>)
    ensures
        out.deep_view() == audit_shown(findings.deep_view()),
{
    match findings {
        None => one_of(lit(NO_CONTROL)),
        Some(list) => {
            if list.len() == 0 {
                return one_of(dimmed("consistent"));
            }
            let ghost all = finding_texts(list.deep_view());
            let mut out: Vec<String> = none_of();
            let mut i: usize = 0;
            assert(out.deep_view() =~= all.take(0));
            while i < list.len()
                invariant
                    i <= list.len(),
                    all == finding_texts(list.deep_view()),
                    findings.deep_view() == Some(list.deep_view()),
                    list.len() > 0,
                    out.deep_view() == all.take(i as int),
                decreases list.len() - i,
            {
                put(
                    &mut out,
                    lit("\u{1b}[33m  ").concat(list[i].as_str()).concat("\u{1b}[0m"),
                );
                assert(out.deep_view() =~= all.take(i + 1));
                i = i + 1;
            }
            assert(all.take(i as int) =~= all);
            out
        },
    }
}

/// The running tree.
pub fn show_dump(dump: &Option<String>) -> (r: String)
    ensures
        r@ == (match dump.deep_view() {
            Some(d) => "\u{1b}[2m"@ + d + "\u{1b}[0m"@,
            None => NO_CONTROL@,
        }),
{
    match dump {
        Some(d) => lit("\u{1b}[2m").concat(d.as_str()).concat("\u{1b}[0m"),
        None => lit(NO_CONTROL),
    }
}

/// One live agent.
pub fn show_agent(id: u64, status: &str) -> (r: String)
    ensures
        r@ == dim("#"@ + text::decimal(id as nat) + " "@ + status@),
{
    dimmed(lit("#").concat(number(id).as_str()).concat(" ").concat(status).as_str())
}

/// The session's name.
pub fn show_title(title: Option<String>) -> (r: String)
    ensures
        r@ == dim(
            match title.deep_view() {
                Some(t) => t,
                None => "(untitled)"@,
            },
        ),
{
    match title {
        Some(t) => dimmed(t.as_str()),
        None => dimmed("(untitled)"),
    }
}

pub open spec fn red(s: Seq<char>) -> Seq<char> {
    "\u{1b}[31m  "@ + s + "\u{1b}[0m"@
}

/// What applying a layer came to.
pub fn show_patch(result: Result<String, String>) -> (r: String)
    ensures
        r@ == (match result {
            Ok(s) => dim(s@),
            Err(e) => red(e@),
        }),
{
    match result {
        Ok(s) => dimmed(s.as_str()),
        Err(e) => lit("\u{1b}[31m  ").concat(e.as_str()).concat("\u{1b}[0m"),
    }
}

/// A layer that could not be read.
pub fn show_unreadable(path: &str, why: &str) -> (r: String)
    ensures
        r@ == red("cannot read "@ + path@ + ": "@ + why@),
{
    lit("\u{1b}[31m  ").concat(
        lit("cannot read ").concat(path).concat(": ").concat(why).as_str(),
    ).concat("\u{1b}[0m")
}

// ---- one prompt -----------------------------------------------------------

/// The prompt a one-shot run needs.
pub fn one_shot(initial: Option<String>) -> (r: Result<String, String>)
    ensures
        match r {
            Ok(p) => initial.deep_view() == Some(p@),
            Err(e) => initial is None && e@ == "this front end needs a prompt"@,
        },
{
    match initial {
        Some(p) => Ok(p),
        None => Err(lit("this front end needs a prompt")),
    }
}

/// How a one-shot run ends.
pub fn one_shot_end(o: TurnOutcome) -> (r: Result<(), String>)
    ensures
        match r {
            Ok(_) => o.error is None,
            Err(e) => o.deep_view().error == Some(e@),
        },
{
    match o.error {
        Some(e) => Err(e),
        None => Ok(()),
    }
}

// ---- questions ------------------------------------------------------------

/// Whether an option is what was typed, or begins with it, whatever the case.
pub open spec fn answers(option: Seq<char>, typed: Seq<char>) -> bool {
    typed.is_prefix_of(text::lowered(option))
}

/// The first option that answers.
pub open spec fn picked(options: Seq<Seq<char>>, typed: Seq<char>) -> Option<Seq<char>>
    decreases options.len(),
{
    if options.len() == 0 {
        None
    } else if answers(options[0], typed) {
        Some(options[0])
    } else {
        picked(options.skip(1), typed)
    }
}

/// The option a typed line picks.
pub fn pick(options: &Vec<String>, line: &str) -> (r: Option<String>)
    ensures
        r.deep_view() == picked(options.deep_view(), text::lowered(text::trimmed(line@))),
{
    let typed = lower(trim(line));
    pick_typed(options, typed.as_str())
}

/// The first option that begins with what was typed, in lower case.
pub fn pick_typed(options: &Vec<String>, typed: &str) -> (r: Option<String>)
    ensures
        r.deep_view() == picked(options.deep_view(), typed@),
{
    let ghost all = options.deep_view();
    let mut i: usize = 0;
    assert(all.skip(0) =~= all);
    while i < options.len()
        invariant
            i <= options.len(),
            all == options.deep_view(),
            picked(all, typed@) == picked(all.skip(i as int), typed@),
        decreases options.len() - i,
    {
        assert(all.skip(i as int)[0] == options@[i as int]@);
        assert(all.skip(i as int).skip(1) =~= all.skip(i + 1));
        if starts_with(lower(options[i].as_str()).as_str(), typed) {
            return Some(options[i].clone());
        }
        i = i + 1;
    }
    assert(all.skip(i as int).len() == 0);
    None
}

/// The question, as the terminal shows it.
pub fn show_question(question: &str) -> (r: String)
    ensures
        r@ == "\n\u{1b}[33m"@ + question@ + "\u{1b}[0m"@,
{
    lit("\n\u{1b}[33m").concat(question).concat("\u{1b}[0m")
}

/// Its options.
pub fn show_options(options: &Vec<String>) -> (r: String)
    ensures
        r@ == "\u{1b}[33m["@ + text::joined(options.deep_view(), "/"@) + "]\u{1b}[0m "@,
{
    lit("\u{1b}[33m[").concat(join(options, "/").as_str()).concat("]\u{1b}[0m ")
}

/// An answer is always one of the options that were offered.
pub proof fn law_an_answer_is_an_option(options: Seq<Seq<char>>, typed: Seq<char>)
    ensures
        picked(options, typed) matches Some(o) ==> options.contains(o) && answers(o, typed),
    decreases options.len(),
{
    if options.len() > 0 {
        let rest = options.skip(1);
        law_an_answer_is_an_option(rest, typed);
        match picked(options, typed) {
            Some(o) => {
                if answers(options[0], typed) {
                    assert(options[0] == o);
                } else {
                    let k = choose|k: int| 0 <= k < rest.len() && rest[k] == o;
                    assert(options[k + 1] == o);
                }
            },
            None => {},
        }
    }
}

/// A line the reader hands to the loop as a command is never taken for a message, and
/// one it delivers is never taken for a command.
pub proof fn law_reader_and_loop_agree(line: Seq<char>)
    ensures
        sorted_out(line) matches InputView::Command(c) ==> !(meant(c) is Say) && !(meant(
            c,
        ) is Nothing),
        sorted_out(line) matches InputView::Deliver(t) ==> meant(line) == CommandView::Say(t),
{
    let t = text::trimmed(line);
    text::lemma_trim_twice(line);
    reveal_strlit("/exit");
    reveal_strlit("/quit");
    reveal_strlit("/help");
    reveal_strlit("/rows");
    reveal_strlit("/dump");
    reveal_strlit("/audit");
    reveal_strlit("/stop");
    reveal_strlit("/agents");
    reveal_strlit("/seams");
    reveal_strlit("/title");
    reveal_strlit("/patch ");
    assert("/exit"@[0] == '/');
    assert("/quit"@[0] == '/');
    assert("/help"@[0] == '/');
    assert("/rows"@[0] == '/');
    assert("/dump"@[0] == '/');
    assert("/audit"@[0] == '/');
    assert("/stop"@[0] == '/');
    assert("/agents"@[0] == '/');
    assert("/seams"@[0] == '/');
    assert("/title"@[0] == '/');
    assert("/patch "@[0] == '/');
    if "/patch "@.is_prefix_of(t) {
        assert(t[0] == '/');
    }
}

} // verus!

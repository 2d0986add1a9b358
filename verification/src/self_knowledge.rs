//! What the agent knows about itself: `describe_self` answers from the tree that is
//! running, never from anything written down beforehand.
use crate::data::{none_of, put, Dup};
use crate::events::{ToolResult, ToolResultView};
use crate::json;
use crate::order;
use crate::text;
use crate::text::{blank, join, lines_of, lit, number, same, trim};
use vstd::prelude::*;

verus! {

/// What is true of every session, and so may stand in the prompt.
pub const INVARIANT: &'static str = "You are AtomCode, an agent assembled at runtime from plugin rows on the plexus kernel — the coding opinion, if you have one, is itself just another row. There is no fixed feature set — only the rows the running tree happens to have mounted, which is why you cannot know what you are from anything you were trained on.\n\nWhen you are asked what you are made of, what you can do, how to change something about yourself — the model, memory, plugins, the layout, the language, where a file lives — which session this is, or where your own state is kept, call `describe_self` rather than guessing or searching the repository for clues. Reading the source of a build is not the same as reading the tree that is running, and only the tool reports the tree that is running.";

/// How the system is put together.
pub const COMPOSITION: &'static str = "HOW THIS SYSTEM IS PUT TOGETHER. Every capability is a *row* in a config tree — model adapter, each tool group, memory, recall, approval policy, the UI. A row names a plugin from the build's catalog; the tree says which rows run and in what order.\nTo add one: `[[insert]] name = \"<plugin>\"` (optionally with `config = {…}`). To retune one: `[[patch]] id = \"<row>\" config = {…}` — note this REPLACES that row's config rather than merging into it. To drop one: `[[remove]] id = \"<row>\"`, or `[[patch]] … disabled = true`.\nThird-party tools arrive as MCP servers rather than as compiled plugins — see the `mcp` entry if that row is mounted. Call `describe_self` with `aspect: services` for what is mounted right now.";

/// What the model is told `describe_self` is for.
pub const DESCRIPTION: &'static str = "Report how this agent is actually assembled and how to work it: the session id and where its event log is written, which service slots are filled, which tools are registered, how to change things (model, memory, plugins, layout — `aspect: operations`), and the user-settings catalog including language (`aspect: settings`). Read this instead of guessing or searching the repository whenever you are asked what you are, what you can do, how to change something, or where your own state is kept — every answer is generated from the running system, so none of it can be out of date.";

pub const NO_SESSION: &'static str = "session: no session log is mounted in this tree.";

pub const NOWHERE: &'static str = "nowhere — no session-persistence row is mounted, so this session is in memory only and ends when the process does";

pub const NO_OPERATIONS: &'static str = "No row has described a knob in this tree.";

pub const NO_CATALOG: &'static str = "tools: no tool catalog is mounted.";

pub const EMPTY_CATALOG: &'static str = "tools: the catalog is mounted but empty.";

/// Which session this is.
#[derive(Debug, PartialEq, Eq)]
pub struct SessionFacts {
    pub id: String,
    pub turn: u64,
    /// How many events are logged.
    pub events: u64,
    /// Where its log is kept.
    pub location: Option<String>,
}

/// What a [`SessionFacts`] holds.
#[verifier::ext_equal]
pub struct SessionFactsView {
    pub id: Seq<char>,
    pub turn: u64,
    pub events: u64,
    pub location: Option<Seq<char>>,
}

impl DeepView for SessionFacts {
    type V = SessionFactsView;

    open spec fn deep_view(&self) -> SessionFactsView {
        SessionFactsView {
            id: self.id.deep_view(),
            turn: self.turn.deep_view(),
            events: self.events.deep_view(),
            location: self.location.deep_view(),
        }
    }
}

impl Dup for SessionFacts {
    fn dup(&self) -> (r: Self) {
        SessionFacts {
            id: self.id.dup(),
            turn: self.turn.dup(),
            events: self.events.dup(),
            location: self.location.dup(),
        }
    }
}

impl Clone for SessionFacts {
    fn clone(&self) -> (r: Self)
        ensures
            r.deep_view() == self.deep_view(),
    {
        self.dup()
    }
}

/// A tool that is registered.
#[derive(Debug, PartialEq, Eq)]
pub struct ToolDef {
    pub name: String,
    pub description: String,
}

/// What a [`ToolDef`] holds.
#[verifier::ext_equal]
pub struct ToolDefView {
    pub name: Seq<char>,
    pub description: Seq<char>,
}

impl DeepView for ToolDef {
    type V = ToolDefView;

    open spec fn deep_view(&self) -> ToolDefView {
        ToolDefView {
            name: self.name.deep_view(),
            description: self.description.deep_view(),
        }
    }
}

impl Dup for ToolDef {
    fn dup(&self) -> (r: Self) {
        ToolDef {
            name: self.name.dup(),
            description: self.description.dup(),
        }
    }
}

impl Clone for ToolDef {
    fn clone(&self) -> (r: Self)
        ensures
            r.deep_view() == self.deep_view(),
    {
        self.dup()
    }
}

/// What a setting accepts.
#[derive(Debug, PartialEq, Eq)]
pub enum SettingKind {
    Boolean,
    OptionalBoolean,
    Integer { min: u64, max: u64 },
    Choice(Vec<String>),
    Text,
}

/// What a [`SettingKind`] holds.
#[verifier::ext_equal]
pub enum SettingKindView {
    Boolean,
    OptionalBoolean,
    Integer { min: u64, max: u64 },
    Choice(Seq<Seq<char>>),
    Text,
}

impl DeepView for SettingKind {
    type V = SettingKindView;

    open spec fn deep_view(&self) -> SettingKindView {
        match self {
            SettingKind::Boolean => SettingKindView::Boolean,
            SettingKind::OptionalBoolean => SettingKindView::OptionalBoolean,
            SettingKind::Integer { min, max } => SettingKindView::Integer {
                min: min.deep_view(),
                max: max.deep_view(),
            },
            SettingKind::Choice(x) => SettingKindView::Choice(x.deep_view()),
            SettingKind::Text => SettingKindView::Text,
        }
    }
}

impl Dup for SettingKind {
    fn dup(&self) -> (r: Self) {
        match self {
            SettingKind::Boolean => SettingKind::Boolean,
            SettingKind::OptionalBoolean => SettingKind::OptionalBoolean,
            SettingKind::Integer { min, max } => SettingKind::Integer {
                min: min.dup(),
                max: max.dup(),
            },
            SettingKind::Choice(x) => SettingKind::Choice(x.dup()),
            SettingKind::Text => SettingKind::Text,
        }
    }
}

impl Clone for SettingKind {
    fn clone(&self) -> (r: Self)
        ensures
            r.deep_view() == self.deep_view(),
    {
        self.dup()
    }
}

/// A setting the user can edit.
#[derive(Debug, PartialEq, Eq)]
pub struct SettingSpec {
    pub id: String,
    pub label_en: String,
    pub label_zh: String,
    pub aliases: Vec<String>,
    pub kind: SettingKind,
    /// When it takes effect.
    pub apply: String,
}

/// What a [`SettingSpec`] holds.
#[verifier::ext_equal]
pub struct SettingSpecView {
    pub id: Seq<char>,
    pub label_en: Seq<char>,
    pub label_zh: Seq<char>,
    pub aliases: Seq<Seq<char>>,
    pub kind: SettingKindView,
    pub apply: Seq<char>,
}

impl DeepView for SettingSpec {
    type V = SettingSpecView;

    open spec fn deep_view(&self) -> SettingSpecView {
        SettingSpecView {
            id: self.id.deep_view(),
            label_en: self.label_en.deep_view(),
            label_zh: self.label_zh.deep_view(),
            aliases: self.aliases.deep_view(),
            kind: self.kind.deep_view(),
            apply: self.apply.deep_view(),
        }
    }
}

impl Dup for SettingSpec {
    fn dup(&self) -> (r: Self) {
        SettingSpec {
            id: self.id.dup(),
            label_en: self.label_en.dup(),
            label_zh: self.label_zh.dup(),
            aliases: self.aliases.dup(),
            kind: self.kind.dup(),
            apply: self.apply.dup(),
        }
    }
}

impl Clone for SettingSpec {
    fn clone(&self) -> (r: Self)
        ensures
            r.deep_view() == self.deep_view(),
    {
        self.dup()
    }
}

/// The tree that is running.
#[derive(Debug, PartialEq, Eq)]
pub struct Facts {
    pub session: Option<SessionFacts>,
    pub services: Vec<String>,
    /// None where no catalog is mounted.
    pub tools: Option<Vec<ToolDef>>,
    /// What the rows said of themselves; none where none said anything.
    pub operations: Option<String>,
    pub settings_path: String,
    pub settings: Vec<SettingSpec>,
}

/// What a [`Facts`] holds.
#[verifier::ext_equal]
pub struct FactsView {
    pub session: Option<SessionFactsView>,
    pub services: Seq<Seq<char>>,
    pub tools: Option<Seq<ToolDefView>>,
    pub operations: Option<Seq<char>>,
    pub settings_path: Seq<char>,
    pub settings: Seq<SettingSpecView>,
}

impl DeepView for Facts {
    type V = FactsView;

    open spec fn deep_view(&self) -> FactsView {
        FactsView {
            session: self.session.deep_view(),
            services: self.services.deep_view(),
            tools: self.tools.deep_view(),
            operations: self.operations.deep_view(),
            settings_path: self.settings_path.deep_view(),
            settings: self.settings.deep_view(),
        }
    }
}

impl Dup for Facts {
    fn dup(&self) -> (r: Self) {
        Facts {
            session: self.session.dup(),
            services: self.services.dup(),
            tools: self.tools.dup(),
            operations: self.operations.dup(),
            settings_path: self.settings_path.dup(),
            settings: self.settings.dup(),
        }
    }
}

impl Clone for Facts {
    fn clone(&self) -> (r: Self)
        ensures
            r.deep_view() == self.deep_view(),
    {
        self.dup()
    }
}

// ---- the aspects ----------------------------------------------------------

pub open spec fn where_text(f: SessionFactsView) -> Seq<char> {
    match f.location {
        Some(l) => l,
        None => NOWHERE@,
    }
}

/// Which session this is, and where its log is.
pub open spec fn session_text(session: Option<SessionFactsView>) -> Seq<char> {
    match session {
        None => NO_SESSION@,
        Some(f) => "session id: "@ + f.id + "\nturn: "@ + text::decimal(f.turn as nat) + "\nevents logged so far: "@ + text::decimal(f.events as nat) + "\nevent log: "@ + where_text(f),
    }
}

fn show_session(session: &Option<SessionFacts>) -> (r: String)
    ensures
        r@ == session_text(session.deep_view()),
{
    match session {
        None => lit(NO_SESSION),
        Some(f) => {
            let place = match &f.location {
                Some(l) => l.clone(),
                None => lit(NOWHERE),
            };
            lit("session id: ").concat(f.id.as_str()).concat("\nturn: ").concat(number(f.turn).as_str()).concat("\nevents logged so far: ").concat(number(f.events).as_str()).concat("\nevent log: ").concat(place.as_str())
        },
    }
}

/// The names, six to a line.
pub open spec fn rows_of_six(names: Seq<Seq<char>>) -> Seq<Seq<char>>
    decreases names.len(),
{
    if names.len() == 0 {
        Seq::empty()
    } else if names.len() <= 6 {
        seq!["  "@ + text::joined(names, ", "@)]
    } else {
        seq!["  "@ + text::joined(names.take(6), ", "@)] + rows_of_six(names.skip(6))
    }
}

fn lay_out(names: &Vec<String>) -> (out: Vec<String>)
    ensures
        out.deep_view() == rows_of_six(names.deep_view()),
{
    let ghost all = names.deep_view();
    let mut out: Vec<String> = none_of();
    let mut i: usize = 0;
    assert(all.skip(0) =~= all);
    assert(out.deep_view() + rows_of_six(all) =~= rows_of_six(all));
    while i < names.len()
        invariant
            i <= names.len(),
            all == names.deep_view(),
            out.deep_view() + rows_of_six(all.skip(i as int)) == rows_of_six(all),
        decreases names.len() - i,
    {
        let end: usize = if names.len() - i <= 6 {
            names.len()
        } else {
            i + 6
        };
        let ghost rest = all.skip(i as int);
        let ghost before = out.deep_view();
        let mut row: Vec<String> = none_of();
        let mut j: usize = i;
        assert(row.deep_view() =~= all.subrange(i as int, i as int));
        while j < end
            invariant
                i <= j <= end <= names.len(),
                all == names.deep_view(),
                row.deep_view() == all.subrange(i as int, j as int),
            decreases end - j,
        {
            put(&mut row, names[j].clone());
            assert(row.deep_view() =~= all.subrange(i as int, j + 1));
            j = j + 1;
        }
        put(&mut out, lit("  ").concat(join(&row, ", ").as_str()));
        proof {
            if rest.len() <= 6 {
                assert(all.subrange(i as int, end as int) =~= rest);
                assert(all.skip(end as int).len() == 0);
            } else {
                assert(all.subrange(i as int, end as int) =~= rest.take(6));
                assert(rest.skip(6) =~= all.skip(end as int));
            }
        }
        assert(out.deep_view() + rows_of_six(all.skip(end as int)) =~= before + rows_of_six(rest));
        i = end;
    }
    assert(all.skip(i as int).len() == 0);
    assert(out.deep_view() =~= rows_of_six(all));
    out
}

/// What is mounted, in order.
pub open spec fn services_text(names: Seq<Seq<char>>) -> Seq<char> {
    "The service slots filled and visible from this agent's realm ("@ + text::decimal(names.len()) + " of them). A slot is an address; the plugin behind it is a value the config picked, so the presence of `llm` says a model adapter is mounted, not which one.\n\n"@ + text::joined(rows_of_six(order::sorted(names)), "\n"@)
}

fn show_services(names: &Vec<String>) -> (r: String)
    ensures
        r@ == services_text(names.deep_view()),
{
    let rows = lay_out(&order::sort(names));
    lit("The service slots filled and visible from this agent's realm (").concat(number(names.len() as u64).as_str()).concat(" of them). A slot is an address; the plugin behind it is a value the config picked, so the presence of `llm` says a model adapter is mounted, not which one.\n\n").concat(join(&rows, "\n").as_str())
}

/// How to work the system, in the words of the rows themselves.
pub open spec fn operations_text(operations: Option<Seq<char>>) -> Seq<char> {
    match operations {
        Some(o) => "How to work this system. Each entry was written by the row that implements it, so nothing here describes a capability that is not mounted.\n\n"@ + o,
        None => NO_OPERATIONS@,
    }
}

fn show_operations(operations: &Option<String>) -> (r: String)
    ensures
        r@ == operations_text(operations.deep_view()),
{
    match operations {
        Some(o) => lit("How to work this system. Each entry was written by the row that implements it, so nothing here describes a capability that is not mounted.\n\n").concat(o.as_str()),
        None => lit(NO_OPERATIONS),
    }
}

/// What a setting accepts.
pub open spec fn accepted(kind: SettingKindView) -> Seq<char> {
    match kind {
        SettingKindView::Boolean => "true | false"@,
        SettingKindView::OptionalBoolean => "true | false | unset"@,
        SettingKindView::Integer { min, max } => text::decimal(min as nat) + "..="@ + text::decimal(
            max as nat,
        ),
        SettingKindView::Choice(options) => text::joined(options, " | "@),
        SettingKindView::Text => "text"@,
    }
}

pub fn show_accepted(kind: &SettingKind) -> (r: String)
    ensures
        r@ == accepted(kind.deep_view()),
{
    match kind {
        SettingKind::Boolean => lit("true | false"),
        SettingKind::OptionalBoolean => lit("true | false | unset"),
        SettingKind::Integer { min, max } => number(*min).concat("..=").concat(
            number(*max).as_str(),
        ),
        SettingKind::Choice(options) => join(options, " | "),
        SettingKind::Text => lit("text"),
    }
}

pub open spec fn setting_text(s: SettingSpecView) -> Seq<char> {
    "\n  "@ + s.id + " — "@ + s.label_en + " / "@ + s.label_zh + (if s.aliases.len() == 0 {
        Seq::empty()
    } else {
        " ("@ + text::joined(s.aliases, ", "@) + ")"@
    }) + " : "@ + accepted(s.kind) + " → "@ + s.apply
}

fn show_setting(s: &SettingSpec) -> (r: String)
    ensures
        r@ == setting_text(s.deep_view()),
{
    let aliases = if s.aliases.len() == 0 {
        String::new()
    } else {
        lit(" (").concat(join(&s.aliases, ", ").as_str()).concat(")")
    };
    assert(s.aliases.deep_view().len() == 0 ==> aliases@ =~= Seq::empty());
    lit("\n  ").concat(s.id.as_str()).concat(" — ").concat(s.label_en.as_str()).concat(
        " / ",
    ).concat(s.label_zh.as_str()).concat(aliases.as_str()).concat(" : ").concat(
        show_accepted(&s.kind).as_str(),
    ).concat(" → ").concat(s.apply.as_str())
}

pub open spec fn setting_lines(settings: Seq<SettingSpecView>) -> Seq<char>
    decreases settings.len(),
{
    if settings.len() == 0 {
        Seq::empty()
    } else {
        setting_lines(settings.drop_last()) + setting_text(settings.last())
    }
}

pub open spec fn settings_head(path: Seq<char>, settings: Seq<SettingSpecView>) -> Seq<char> {
    "User settings live in `"@ + path + "`. "@ + text::decimal(settings.len()) + " of them are safely editable; each line is `id — label (aliases) : accepted values → when it takes effect`.\n\nNote what is deliberately absent: model, provider, account, endpoint and credentials are NOT in this catalog. Those are picked per row in the running tree — see the `operations` aspect for how this tree gets its model.\n"@
}

/// The settings the user can edit.
pub open spec fn settings_text(path: Seq<char>, settings: Seq<SettingSpecView>) -> Seq<char> {
    settings_head(path, settings) + setting_lines(settings)
}

fn show_settings(path: &str, settings: &Vec<SettingSpec>) -> (r: String)
    ensures
        r@ == settings_text(path@, settings.deep_view()),
{
    let ghost all = settings.deep_view();
    let mut out = lit("User settings live in `").concat(path).concat("`. ").concat(number(settings.len() as u64).as_str()).concat(" of them are safely editable; each line is `id — label (aliases) : accepted values → when it takes effect`.\n\nNote what is deliberately absent: model, provider, account, endpoint and credentials are NOT in this catalog. Those are picked per row in the running tree — see the `operations` aspect for how this tree gets its model.\n");
    let ghost head = settings_head(path@, all);
    let mut i: usize = 0;
    assert(all.take(0).len() == 0);
    assert(head + setting_lines(all.take(0)) =~= head);
    while i < settings.len()
        invariant
            i <= settings.len(),
            all == settings.deep_view(),
            out@ == head + setting_lines(all.take(i as int)),
        decreases settings.len() - i,
    {
        out.append(show_setting(&settings[i]).as_str());
        assert(all.take(i + 1).drop_last() =~= all.take(i as int));
        assert(all.take(i + 1).last() == settings@[i as int].deep_view());
        assert(out@ =~= head + setting_lines(all.take(i + 1)));
        i = i + 1;
    }
    assert(all.take(i as int) =~= all);
    out
}

/// The first of these lines that says anything, bare.
pub open spec fn first_said(lines: Seq<Seq<char>>) -> Seq<char>
    decreases lines.len(),
{
    if lines.len() == 0 {
        Seq::empty()
    } else if text::is_blank(lines[0]) {
        first_said(lines.skip(1))
    } else {
        text::trimmed(lines[0])
    }
}

fn take_first(text: &str) -> (r: String)
    ensures
        r@ == first_said(text::lines(text@)),
{
    let lines = lines_of(text);
    let ghost all = lines.deep_view();
    let mut i: usize = 0;
    assert(all.skip(0) =~= all);
    while i < lines.len()
        invariant
            i <= lines.len(),
            all == lines.deep_view(),
            all == text::lines(text@),
            first_said(all) == first_said(all.skip(i as int)),
        decreases lines.len() - i,
    {
        assert(all.skip(i as int)[0] == lines@[i as int]@);
        assert(all.skip(i as int).skip(1) =~= all.skip(i + 1));
        if !blank(lines[i].as_str()) {
            return lit(trim(lines[i].as_str()));
        }
        i = i + 1;
    }
    assert(all.skip(i as int).len() == 0);
    let none = String::new();
    assert(none@ =~= Seq::empty());
    none
}

pub open spec fn tool_lines(defs: Seq<ToolDefView>) -> Seq<char>
    decreases defs.len(),
{
    if defs.len() == 0 {
        Seq::empty()
    } else {
        tool_lines(defs.drop_last()) + ("  "@ + defs.last().name + " — "@ + first_said(
            text::lines(defs.last().description),
        ) + "\n"@)
    }
}

/// The live catalog, a line for each tool.
pub open spec fn tools_text(tools: Option<Seq<ToolDefView>>) -> Seq<char> {
    match tools {
        None => NO_CATALOG@,
        Some(defs) => if defs.len() == 0 {
            EMPTY_CATALOG@
        } else {
            text::decimal(defs.len()) + " tools are registered right now:\n"@ + tool_lines(defs)
        },
    }
}

fn show_tools(tools: &Option<Vec<ToolDef>>) -> (r: String)
    ensures
        r@ == tools_text(tools.deep_view()),
{
    match tools {
        None => lit(NO_CATALOG),
        Some(defs) => {
            if defs.len() == 0 {
                return lit(EMPTY_CATALOG);
            }
            let ghost all = defs.deep_view();
            let mut out = number(defs.len() as u64).concat(" tools are registered right now:\n");
            let ghost head = out@;
            let mut i: usize = 0;
            assert(all.take(0).len() == 0);
            assert(head + tool_lines(all.take(0)) =~= head);
            while i < defs.len()
                invariant
                    i <= defs.len(),
                    all == defs.deep_view(),
                    out@ == head + tool_lines(all.take(i as int)),
                decreases defs.len() - i,
            {
                let line = lit("  ").concat(defs[i].name.as_str()).concat(" — ").concat(
                    take_first(defs[i].description.as_str()).as_str(),
                ).concat("\n");
                out.append(line.as_str());
                assert(all.take(i + 1).drop_last() =~= all.take(i as int));
                assert(all.take(i + 1).last() == defs@[i as int].deep_view());
                assert(out@ =~= head + tool_lines(all.take(i + 1)));
                i = i + 1;
            }
            assert(all.take(i as int) =~= all);
            out
        },
    }
}

// ---- the tool -------------------------------------------------------------

/// Which aspect is asked for. Arguments that cannot be read ask for everything.
pub open spec fn aspect_of(args: Result<json::JsonView, Seq<char>>) -> Seq<char> {
    match args {
        Ok(j) => match json::text_under(j, "aspect"@) {
            Some(a) => a,
            None => "all"@,
        },
        Err(_) => "all"@,
    }
}

/// What is answered. Everything leaves the settings out: they are a long table that
/// answers a question seldom asked.
pub open spec fn told(aspect: Seq<char>, f: FactsView) -> Seq<char> {
    if aspect == "session"@ {
        session_text(f.session)
    } else if aspect == "services"@ {
        services_text(f.services)
    } else if aspect == "tools"@ {
        tools_text(f.tools)
    } else if aspect == "operations"@ {
        operations_text(f.operations)
    } else if aspect == "settings"@ {
        settings_text(f.settings_path, f.settings)
    } else {
        session_text(f.session) + "\n\n"@ + services_text(f.services) + "\n\n"@ + tools_text(
            f.tools,
        ) + "\n\n"@ + operations_text(f.operations)
    }
}

/// Answers about one aspect.
pub fn tell(aspect: &str, f: &Facts) -> (r: String)
    ensures
        r@ == told(aspect@, f.deep_view()),
{
    if same(aspect, "session") {
        show_session(&f.session)
    } else if same(aspect, "services") {
        show_services(&f.services)
    } else if same(aspect, "tools") {
        show_tools(&f.tools)
    } else if same(aspect, "operations") {
        show_operations(&f.operations)
    } else if same(aspect, "settings") {
        show_settings(f.settings_path.as_str(), &f.settings)
    } else {
        show_session(&f.session).concat("\n\n").concat(
            show_services(&f.services).as_str(),
        ).concat("\n\n").concat(show_tools(&f.tools).as_str()).concat("\n\n").concat(
            show_operations(&f.operations).as_str(),
        )
    }
}

/// The `describe_self` tool.
#[derive(Clone, Copy, Debug, PartialEq, Eq, Structural)]
pub struct DescribeSelf;

impl DescribeSelf {
    pub fn name(&self) -> (r: &'static str)
        ensures
            r@ == "describe_self"@,
    {
        "describe_self"
    }

    /// Answers from the tree that is running. It never fails: a typo in an optional
    /// argument is no reason not to say what the agent is.
    pub fn execute(&self, args: &str, facts: &Facts) -> (r: ToolResult)
        ensures
            r.deep_view() == (ToolResultView {
                call_id: Seq::empty(),
                content: told(aspect_of(json::parsed(args@)), facts.deep_view()),
                is_error: false,
                images: Seq::empty(),
            }),
    {
        let aspect = match json::read(args) {
            Ok(j) => match j.text_at("aspect") {
                Some(a) => a,
                None => lit("all"),
            },
            Err(_) => lit("all"),
        };
        let r = ToolResult {
            call_id: String::new(),
            content: tell(aspect.as_str(), facts),
            is_error: false,
            images: none_of(),
        };
        assert(r.call_id@ =~= Seq::empty());
        r
    }
}

/// What a repository's own instructions put into the prompt: nothing where it has none,
/// not even an empty line.
pub fn instructions(text: &str) -> (r: Option<String>)
    ensures
        r.deep_view() == (if text::is_blank(text@) {
            None
        } else {
            Some(text@)
        }),
{
    if blank(text) {
        None
    } else {
        Some(lit(text))
    }
}

// ---- laws -----------------------------------------------------------------

/// Everything but the settings: an answer to anything other than a question about them
/// does not depend on them.
pub proof fn law_settings_are_asked_for(aspect: Seq<char>, f: FactsView, g: FactsView)
    requires
        aspect != "settings"@,
        f.session == g.session,
        f.services == g.services,
        f.tools == g.tools,
        f.operations == g.operations,
    ensures
        told(aspect, f) == told(aspect, g),
{
}

/// The services are listed the same whatever order they were mounted in.
pub proof fn law_mounting_order_does_not_show(a: Seq<Seq<char>>, b: Seq<Seq<char>>)
    requires
        a.to_multiset() == b.to_multiset(),
    ensures
        services_text(a) == services_text(b),
{
    order::law_order_does_not_matter(a, b);
    a.to_multiset_ensures();
    b.to_multiset_ensures();
}

/// The arguments of `describe_self`, as JSON Schema.
pub const SCHEMA: &'static str = "{\"properties\":{\"aspect\":{\"description\":\"session = which session this is and where its log is; services = what is mounted; tools = the live catalog; operations = how to change things (model, memory, plugins, layout); settings = the user-settings catalog including language. Defaults to everything but settings.\",\"enum\":[\"session\",\"services\",\"tools\",\"operations\",\"settings\",\"all\"],\"type\":\"string\"}},\"type\":\"object\"}";

} // verus!

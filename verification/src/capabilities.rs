//! Skills, code intelligence, the web, review, memory and external servers: what each
//! row offers the model, what it offers the person, and what it says of itself.
use crate::data::{none_of, put, Dup};
use crate::events::{
    InjectionOrigin, InjectionOriginView, SessionEvent, SessionEventView, ToolResult,
};
use crate::json;
use crate::json::quote;
use crate::table::Names;
use crate::text;
use crate::text::{blank, lit, number, same, split, trim};
use vstd::prelude::*;

verus! {

/// A command a person can run.
#[derive(Debug, PartialEq, Eq)]
pub struct CommandDescription {
    pub name: String,
    pub usage: Option<String>,
    pub summary: String,
}

/// What a [`CommandDescription`] holds.
#[verifier::ext_equal]
pub struct CommandDescriptionView {
    pub name: Seq<char>,
    pub usage: Option<Seq<char>>,
    pub summary: Seq<char>,
}

impl DeepView for CommandDescription {
    type V = CommandDescriptionView;

    open spec fn deep_view(&self) -> CommandDescriptionView {
        CommandDescriptionView {
            name: self.name.deep_view(),
            usage: self.usage.deep_view(),
            summary: self.summary.deep_view(),
        }
    }
}

impl Dup for CommandDescription {
    fn dup(&self) -> (r: Self) {
        CommandDescription {
            name: self.name.dup(),
            usage: self.usage.dup(),
            summary: self.summary.dup(),
        }
    }
}

impl Clone for CommandDescription {
    fn clone(&self) -> (r: Self)
        ensures
            r.deep_view() == self.deep_view(),
    {
        self.dup()
    }
}

/// A skill that is installed.
#[derive(Debug, PartialEq, Eq)]
pub struct Skill {
    pub name: String,
    pub description: String,
}

/// What a [`Skill`] holds.
#[verifier::ext_equal]
pub struct SkillView {
    pub name: Seq<char>,
    pub description: Seq<char>,
}

impl DeepView for Skill {
    type V = SkillView;

    open spec fn deep_view(&self) -> SkillView {
        SkillView {
            name: self.name.deep_view(),
            description: self.description.deep_view(),
        }
    }
}

impl Dup for Skill {
    fn dup(&self) -> (r: Self) {
        Skill {
            name: self.name.dup(),
            description: self.description.dup(),
        }
    }
}

impl Clone for Skill {
    fn clone(&self) -> (r: Self)
        ensures
            r.deep_view() == self.deep_view(),
    {
        self.dup()
    }
}

/// The settings of `code_review`.
#[derive(Debug, PartialEq, Eq)]
pub struct ReviewRow {
    /// What it is told it is running on.
    pub model: Option<String>,
    pub context_window: Option<u32>,
    pub rules_dir: Option<String>,
}

/// What a [`ReviewRow`] holds.
#[verifier::ext_equal]
pub struct ReviewRowView {
    pub model: Option<Seq<char>>,
    pub context_window: Option<u32>,
    pub rules_dir: Option<Seq<char>>,
}

impl DeepView for ReviewRow {
    type V = ReviewRowView;

    open spec fn deep_view(&self) -> ReviewRowView {
        ReviewRowView {
            model: self.model.deep_view(),
            context_window: self.context_window.deep_view(),
            rules_dir: self.rules_dir.deep_view(),
        }
    }
}

impl Dup for ReviewRow {
    fn dup(&self) -> (r: Self) {
        ReviewRow {
            model: self.model.dup(),
            context_window: self.context_window.dup(),
            rules_dir: self.rules_dir.dup(),
        }
    }
}

impl Clone for ReviewRow {
    fn clone(&self) -> (r: Self)
        ensures
            r.deep_view() == self.deep_view(),
    {
        self.dup()
    }
}

/// How `code_review` is set up.
#[derive(Debug, PartialEq, Eq)]
pub struct ReviewConfig {
    pub model: String,
    pub context_window: u32,
    pub rules_dir: Option<String>,
}

/// What a [`ReviewConfig`] holds.
#[verifier::ext_equal]
pub struct ReviewConfigView {
    pub model: Seq<char>,
    pub context_window: u32,
    pub rules_dir: Option<Seq<char>>,
}

impl DeepView for ReviewConfig {
    type V = ReviewConfigView;

    open spec fn deep_view(&self) -> ReviewConfigView {
        ReviewConfigView {
            model: self.model.deep_view(),
            context_window: self.context_window.deep_view(),
            rules_dir: self.rules_dir.deep_view(),
        }
    }
}

impl Dup for ReviewConfig {
    fn dup(&self) -> (r: Self) {
        ReviewConfig {
            model: self.model.dup(),
            context_window: self.context_window.dup(),
            rules_dir: self.rules_dir.dup(),
        }
    }
}

impl Clone for ReviewConfig {
    fn clone(&self) -> (r: Self)
        ensures
            r.deep_view() == self.deep_view(),
    {
        self.dup()
    }
}

/// The settings of memory.
#[derive(Debug, PartialEq, Eq)]
pub struct MemoryRow {
    pub project_root: Option<String>,
    /// Whether the stored memory is shown to the model on the first turn.
    pub inject: bool,
    /// The file of the global tier.
    pub global: Option<String>,
}

/// What a [`MemoryRow`] holds.
#[verifier::ext_equal]
pub struct MemoryRowView {
    pub project_root: Option<Seq<char>>,
    pub inject: bool,
    pub global: Option<Seq<char>>,
}

impl DeepView for MemoryRow {
    type V = MemoryRowView;

    open spec fn deep_view(&self) -> MemoryRowView {
        MemoryRowView {
            project_root: self.project_root.deep_view(),
            inject: self.inject.deep_view(),
            global: self.global.deep_view(),
        }
    }
}

impl Dup for MemoryRow {
    fn dup(&self) -> (r: Self) {
        MemoryRow {
            project_root: self.project_root.dup(),
            inject: self.inject.dup(),
            global: self.global.dup(),
        }
    }
}

impl Clone for MemoryRow {
    fn clone(&self) -> (r: Self)
        ensures
            r.deep_view() == self.deep_view(),
    {
        self.dup()
    }
}

/// One of the memory actions, as a command.
#[derive(Debug, PartialEq, Eq)]
pub struct MemoryCommand {
    pub name: String,
    pub usage: Option<String>,
    pub summary: String,
    pub action: String,
}

/// What a [`MemoryCommand`] holds.
#[verifier::ext_equal]
pub struct MemoryCommandView {
    pub name: Seq<char>,
    pub usage: Option<Seq<char>>,
    pub summary: Seq<char>,
    pub action: Seq<char>,
}

impl DeepView for MemoryCommand {
    type V = MemoryCommandView;

    open spec fn deep_view(&self) -> MemoryCommandView {
        MemoryCommandView {
            name: self.name.deep_view(),
            usage: self.usage.deep_view(),
            summary: self.summary.deep_view(),
            action: self.action.deep_view(),
        }
    }
}

impl Dup for MemoryCommand {
    fn dup(&self) -> (r: Self) {
        MemoryCommand {
            name: self.name.dup(),
            usage: self.usage.dup(),
            summary: self.summary.dup(),
            action: self.action.dup(),
        }
    }
}

impl Clone for MemoryCommand {
    fn clone(&self) -> (r: Self)
        ensures
            r.deep_view() == self.deep_view(),
    {
        self.dup()
    }
}

/// What became of a tool an external server offers.
#[derive(Debug, PartialEq, Eq)]
pub enum Adapted {
    /// It can be mounted under this name.
    Tool(String),
    /// It cannot, and why.
    Refused(String),
}

/// What a [`Adapted`] holds.
#[verifier::ext_equal]
pub enum AdaptedView {
    Tool(Seq<char>),
    Refused(Seq<char>),
}

impl DeepView for Adapted {
    type V = AdaptedView;

    open spec fn deep_view(&self) -> AdaptedView {
        match self {
            Adapted::Tool(x) => AdaptedView::Tool(x.deep_view()),
            Adapted::Refused(x) => AdaptedView::Refused(x.deep_view()),
        }
    }
}

impl Dup for Adapted {
    fn dup(&self) -> (r: Self) {
        match self {
            Adapted::Tool(x) => Adapted::Tool(x.dup()),
            Adapted::Refused(x) => Adapted::Refused(x.dup()),
        }
    }
}

impl Clone for Adapted {
    fn clone(&self) -> (r: Self)
        ensures
            r.deep_view() == self.deep_view(),
    {
        self.dup()
    }
}

/// What is mounted of what external servers offer.
#[derive(Debug, PartialEq, Eq)]
pub struct Mounting {
    pub mounted: Vec<String>,
    /// A line for each tool that is left out.
    pub skipped: Vec<String>,
}

/// What a [`Mounting`] holds.
#[verifier::ext_equal]
pub struct MountingView {
    pub mounted: Seq<Seq<char>>,
    pub skipped: Seq<Seq<char>>,
}

impl DeepView for Mounting {
    type V = MountingView;

    open spec fn deep_view(&self) -> MountingView {
        MountingView {
            mounted: self.mounted.deep_view(),
            skipped: self.skipped.deep_view(),
        }
    }
}

impl Dup for Mounting {
    fn dup(&self) -> (r: Self) {
        Mounting {
            mounted: self.mounted.dup(),
            skipped: self.skipped.dup(),
        }
    }
}

impl Clone for Mounting {
    fn clone(&self) -> (r: Self)
        ensures
            r.deep_view() == self.deep_view(),
    {
        self.dup()
    }
}

/// What the model is told about the symbol tools.
pub const CODEINTEL_PROMPT: &'static str = "Use `list_symbols` / `read_symbol` to read code by symbol instead of by line range, and `find_references` before changing something shared.";

/// What the model is told about the call graph.
pub const CODE_GRAPH_PROMPT: &'static str = "Before changing a shared function, use `trace_callers` or `blast_radius` to see what depends on it.";

/// What the model is told about the web tools.
pub const WEB_PROMPT: &'static str = "`web_search` and `web_fetch` reach the public internet. Prefer them over guessing at an API you cannot read locally.";

/// What the model is told about `code_review`.
pub const REVIEW_PROMPT: &'static str = "`code_review` runs an auditor over the current changes and reports what it finds. It reads; it never edits. Use it before handing work back — not instead of running the tests. When the person asks to review code, a diff, staged changes, a commit, or a branch range, call it before writing the review and pass the requested scope and path filters straight to it rather than pre-reading the diff with ordinary read/search tools, which is what the scoped auditor is for. It may report findings you did not find; weigh them. Do not claim it fixed files or posted comments — it does neither.";

/// What is said of external servers.
pub const MCP_NOTE: &'static str = "MCP — how third-party tools get in without recompiling. Each server is an entry on the `mcp` row's config (`command`/`args` for stdio, `url` for HTTP); its tools join the catalog under their own names and go through the same approval as everything else. This is the closest thing to installing a plugin at runtime; compiled rows require a build.";

// ---- skills ---------------------------------------------------------------

pub open spec fn advert(count: nat) -> Option<Seq<char>> {
    if count == 0 {
        None
    } else {
        Some(text::decimal(count) + " skill(s) are available. Call `list_skills` to see them and `use_skill` to load one before doing work it covers."@)
    }
}

/// The sentence that tells the model skills exist; none where there are none.
pub fn skills_advert(count: usize) -> (r: Option<String>)
    ensures
        r.deep_view() == advert(count as nat),
{
    if count == 0 {
        None
    } else {
        Some(lit(number(count as u64).as_str()).concat(" skill(s) are available. Call `list_skills` to see them and `use_skill` to load one before doing work it covers."))
    }
}

/// What is said of the skills that are loaded.
pub fn skills_note(count: usize) -> (r: String)
    ensures
        r@ == "SKILLS — "@ + text::decimal(count as nat) + " loaded. Markdown files, read from the standard per-project and per-user skill directories plus anything the row's `dirs` config adds. To add one, drop a markdown file in a skill directory and restart; nothing needs recompiling. `list_skills` shows what is loaded now."@,
{
    lit("SKILLS — ").concat(number(count as u64).as_str()).concat(" loaded. Markdown files, read from the standard per-project and per-user skill directories plus anything the row's `dirs` config adds. To add one, drop a markdown file in a skill directory and restart; nothing needs recompiling. `list_skills` shows what is loaded now.")
}

/// The name a person types for a skill: what stands behind the last colon.
pub open spec fn bared(name: Seq<char>) -> Seq<char> {
    text::pieces(name, ':').last()
}

pub fn bare_name(name: &str) -> (r: String)
    ensures
        r@ == bared(name@),
{
    let parts = split(name, ':');
    proof {
        text::lemma_some_piece(name@, ':');
    }
    assert(parts.deep_view().len() > 0);
    let last = parts.len() - 1;
    assert(parts.deep_view()[last as int] == parts@[last as int]@);
    parts[last].clone()
}

/// The commands there are, and the skills among them, once these skills were offered.
/// A skill whose name is taken is left out.
pub open spec fn offered(taken: Set<Seq<char>>, skills: Seq<Seq<char>>) -> (
    Set<Seq<char>>,
    Seq<Seq<char>>,
)
    decreases skills.len(),
{
    if skills.len() == 0 {
        (taken, Seq::empty())
    } else {
        let (now, out) = offered(taken, skills.drop_last());
        let name = bared(skills.last());
        if now.contains(name) {
            (now, out)
        } else {
            (now.insert(name), out.push(skills.last()))
        }
    }
}

/// Makes commands of a skill catalog: the listing, and every skill that can be run by a
/// name that is free. The skills that got one.
pub fn register_skill_commands(catalog: &mut Names, skills: &Vec<String>) -> (out: Vec<String>)
    ensures
        (final(catalog)@, out.deep_view()) == offered(
            old(catalog)@.insert("skills"@),
            skills.deep_view(),
        ),
{
    let ghost all = skills.deep_view();
    let ghost start = catalog@.insert("skills"@);
    let _ = catalog.insert(lit("skills"));
    let mut out: Vec<String> = none_of();
    let mut i: usize = 0;
    assert(all.take(0).len() == 0);
    while i < skills.len()
        invariant
            i <= skills.len(),
            all == skills.deep_view(),
            (catalog@, out.deep_view()) == offered(start, all.take(i as int)),
        decreases skills.len() - i,
    {
        assert(all.take(i + 1).drop_last() =~= all.take(i as int));
        assert(all.take(i + 1).last() == skills@[i as int]@);
        let name = bare_name(skills[i].as_str());
        if !catalog.contains(name.as_str()) {
            let _ = catalog.insert(name);
            put(&mut out, skills[i].clone());
        }
        i = i + 1;
    }
    assert(all.take(i as int) =~= all);
    out
}

pub open spec fn listing(skills: Seq<SkillView>) -> Seq<Seq<char>> {
    Seq::new(skills.len(), |i: int| skills[i].name + " · "@ + skills[i].description)
}
/// What is installed, one line for each.
pub open spec fn skills_text(skills: Seq<SkillView>) -> Seq<char> {
    if skills.len() == 0 {
        "一个 skill 都没装"@
    } else {
        text::joined(listing(skills), "\n"@)
    }
}

/// What is installed, for a person.
pub fn list_skills(skills: &Vec<Skill>) -> (r: String)
    ensures
        r@ == skills_text(skills.deep_view()),
{
    if skills.len() == 0 {
        return lit("一个 skill 都没装");
    }
    let ghost all = listing(skills.deep_view());
    let mut out: Vec<String> = none_of();
    let mut i: usize = 0;
    assert(out.deep_view() =~= all.take(0));
    while i < skills.len()
        invariant
            i <= skills.len(),
            all == listing(skills.deep_view()),
            out.deep_view() == all.take(i as int),
        decreases skills.len() - i,
    {
        put(
            &mut out,
            skills[i].name.clone().concat(" · ").concat(skills[i].description.as_str()),
        );
        assert(out.deep_view() =~= all.take(i + 1));
        i = i + 1;
    }
    assert(all.take(i as int) =~= all);
    text::join(&out, "\n")
}

/// The listing, as a command.
pub fn list_command() -> (c: CommandDescription)
    ensures
        c.deep_view() == (CommandDescriptionView {
            name: "skills"@,
            usage: None,
            summary: "装了哪些 skill,各是干什么的"@,
        }),
{
    CommandDescription {
        name: lit("skills"),
        usage: None,
        summary: lit("装了哪些 skill,各是干什么的"),
    }
}

/// A skill, as a command.
pub fn skill_command(skill: &Skill) -> (c: CommandDescription)
    ensures
        c.deep_view() == (CommandDescriptionView {
            name: bared(skill.name@),
            usage: Some("[给它的话]"@),
            summary: skill.description@,
        }),
{
    CommandDescription {
        name: bare_name(skill.name.as_str()),
        usage: Some(lit("[给它的话]")),
        summary: skill.description.clone(),
    }
}

/// Runs a skill, expanded: it is sent as the person's own message unless there is
/// nothing in it. `Ok` is what the person is told.
pub fn run_skill(name: &str, expanded: &str) -> (r: Result<String, String>)
    ensures
        match r {
            Ok(said) => !text::is_blank(expanded@) && said@ == "按 `"@ + bared(name@) + "` 开始"@,
            Err(e) => text::is_blank(expanded@) && e@ == "`"@ + bared(name@)
                + "` 展开之后是空的"@,
        },
{
    let bare = bare_name(name);
    if blank(expanded) {
        Err(lit("`").concat(bare.as_str()).concat("` 展开之后是空的"))
    } else {
        Ok(lit("按 `").concat(bare.as_str()).concat("` 开始"))
    }
}

/// A command that ran a tool says what the tool said.
pub fn command_outcome(result: ToolResult) -> (r: Result<String, String>)
    ensures
        match r {
            Ok(s) => !result.is_error && s@ == result.content@,
            Err(e) => result.is_error && e@ == result.content@,
        },
{
    if result.is_error {
        Err(result.content)
    } else {
        Ok(result.content)
    }
}

// ---- web ------------------------------------------------------------------

/// Web search and fetch. The key is the host's to give and never part of a
/// configuration, which gets printed.
#[derive(Debug, PartialEq, Eq)]
pub struct WebPlugin {
    api_key: Option<String>,
}

impl WebPlugin {
    pub closed spec fn key(&self) -> Option<Seq<char>> {
        self.api_key.deep_view()
    }

    /// Without a key of its own.
    pub fn new() -> (p: Self)
        ensures
            p.key() is None,
    {
        WebPlugin { api_key: None }
    }

    /// With a key the host read from somewhere a row cannot see.
    pub fn with_api_key(api_key: String) -> (p: Self)
        ensures
            p.key() == Some(api_key@),
    {
        WebPlugin { api_key: Some(api_key) }
    }

    /// Whether it holds a key.
    pub fn is_keyed(&self) -> (r: bool)
        ensures
            r == (self.key() is Some),
    {
        self.api_key.is_some()
    }

    /// The key to hand to the search backend.
    pub fn api_key(&self) -> (r: Option<String>)
        ensures
            r.deep_view() == self.key(),
    {
        self.api_key.dup()
    }
}

/// Who answers a search: the row where it says so, else the environment.
pub open spec fn provider_for(row: Option<Seq<char>>, environment: Option<Seq<char>>) -> Option<
    Seq<char>,
> {
    match row {
        Some(p) => if text::is_blank(p) {
            environment
        } else {
            Some(p)
        },
        None => environment,
    }
}

pub fn web_provider(row: Option<String>, environment: Option<String>) -> (r: Option<String>)
    ensures
        r.deep_view() == provider_for(row.deep_view(), environment.deep_view()),
{
    match row {
        Some(p) => if blank(p.as_str()) {
            environment
        } else {
            Some(p)
        },
        None => environment,
    }
}

/// The backend that answers where nobody was named.
pub fn search_backend(provider: &Option<String>) -> (r: String)
    ensures
        r@ == (match provider.deep_view() {
            Some(p) => p,
            None => "exa"@,
        }),
{
    match provider {
        Some(p) => p.clone(),
        None => lit("exa"),
    }
}

pub open spec fn web_text(backend: Seq<char>) -> Seq<char> {
    "WEB — `web_search` and `web_fetch` reach the public internet. The search backend is "@ + backend + "; when nothing configured this row, the `ATOMCODE_WEB_SEARCH_PROVIDER` environment variable picks it, and an unknown name falls back to the default rather than failing. An Exa key comes from `EXA_API_KEY`, else from the host, else Exa runs keyless. When the process is in offline mode this row mounts nothing at all, so neither tool appears in the catalog."@
}

/// What is said of the web tools.
pub fn web_note(provider: &Option<String>) -> (r: String)
    ensures
        r@ == web_text(
            match provider.deep_view() {
                Some(p) => p,
                None => "the default"@,
            },
        ),
{
    let backend = match provider {
        Some(p) => p.as_str(),
        None => "the default",
    };
    lit("WEB — `web_search` and `web_fetch` reach the public internet. The search backend is ").concat(backend).concat("; when nothing configured this row, the `ATOMCODE_WEB_SEARCH_PROVIDER` environment variable picks it, and an unknown name falls back to the default rather than failing. An Exa key comes from `EXA_API_KEY`, else from the host, else Exa runs keyless. When the process is in offline mode this row mounts nothing at all, so neither tool appears in the catalog.")
}

/// The tools that are mounted: none in a process that is offline.
pub open spec fn web_tools(offline: bool) -> Seq<Seq<char>> {
    if offline {
        Seq::empty()
    } else {
        seq!["web_search"@, "web_fetch"@]
    }
}

pub fn web_tool_names(offline: bool) -> (out: Vec<String>)
    ensures
        out.deep_view() == web_tools(offline),
{
    let mut out: Vec<String> = none_of();
    if !offline {
        put(&mut out, lit("web_search"));
        put(&mut out, lit("web_fetch"));
    }
    assert(out.deep_view() =~= web_tools(offline));
    out
}

// ---- review ---------------------------------------------------------------

/// What `code_review` is set up with: the row where it says something, then the
/// provider of the conversation; a window of nothing is no window.
pub open spec fn reviewing(
    row: ReviewRowView,
    model: Seq<char>,
    window: u32,
    default_window: u32,
) -> ReviewConfigView {
    ReviewConfigView {
        model: match row.model {
            Some(m) => if text::is_blank(m) {
                model
            } else {
                m
            },
            None => model,
        },
        context_window: {
            let w = match row.context_window {
                Some(w) => w,
                None => window,
            };
            if w > 0 {
                w
            } else {
                default_window
            }
        },
        rules_dir: row.rules_dir,
    }
}

pub fn review_config(row: &ReviewRow, model: &str, window: u32, default_window: u32) -> (c:
    ReviewConfig)
    ensures
        c.deep_view() == reviewing(row.deep_view(), model@, window, default_window),
{
    let own = match &row.model {
        Some(m) => if blank(m.as_str()) {
            lit(model)
        } else {
            m.clone()
        },
        None => lit(model),
    };
    let w: u32 = match row.context_window {
        Some(w) => w,
        None => window,
    };
    ReviewConfig {
        model: own,
        context_window: if w > 0 {
            w
        } else {
            default_window
        },
        rules_dir: row.rules_dir.dup(),
    }
}

/// `code_review`, as a command a person runs.
pub fn register_review_command(catalog: &mut Names) -> (c: CommandDescription)
    ensures
        final(catalog)@ == old(catalog)@.insert("review"@),
        c.deep_view() == (CommandDescriptionView {
            name: "review"@,
            usage: Some("[staged | <base>]"@),
            summary: "让评审员看一遍现在的改动;只读,不改"@,
        }),
{
    let _ = catalog.insert(lit("review"));
    CommandDescription {
        name: lit("review"),
        usage: Some(lit("[staged | <base>]")),
        summary: lit("让评审员看一遍现在的改动;只读,不改"),
    }
}

pub open spec fn scoped(args: Seq<char>) -> Seq<char> {
    if text::is_blank(args) {
        "{}"@
    } else {
        "{\"scope\":"@ + json::quoted(text::trimmed(args)) + "}"@
    }
}

/// What `code_review` is called with: the scope as typed.
pub fn review_call(args: &str) -> (r: String)
    ensures
        r@ == scoped(args@),
{
    let scope = trim(args);
    if scope.is_empty() {
        lit("{}")
    } else {
        lit("{\"scope\":").concat(quote(scope).as_str()).concat("}")
    }
}

// ---- memory ---------------------------------------------------------------

impl Default for MemoryRow {
    fn default() -> (r: Self)
        ensures
            r.deep_view() == (MemoryRowView { project_root: None, inject: true, global: None }),
    {
        MemoryRow { project_root: None, inject: true, global: None }
    }
}

/// What a project is called; a path without a last part is just a project.
pub fn project_name(file_name: Option<String>) -> (r: String)
    ensures
        r@ == (match file_name.deep_view() {
            Some(n) => n,
            None => "project"@,
        }),
{
    match file_name {
        Some(n) => n,
        None => lit("project"),
    }
}

pub open spec fn memory_command(
    name: Seq<char>,
    usage: Option<Seq<char>>,
    summary: Seq<char>,
    action: Seq<char>,
) -> MemoryCommandView {
    MemoryCommandView { name, usage, summary, action }
}

/// The three memory actions.
pub open spec fn memory_actions() -> Seq<MemoryCommandView> {
    seq![
        memory_command("memory"@, None, "存下来的那些话"@, "list"@),
        memory_command(
            "remember"@,
            Some("<要记住的话>"@),
            "记住一句话,以后每个会话都带着"@,
            "remember"@,
        ),
        memory_command("forget"@, Some("<要忘掉的话>"@), "把记住的某句话删掉"@, "forget"@),
    ]
}

pub fn memory_commands() -> (out: Vec<MemoryCommand>)
    ensures
        out.deep_view() == memory_actions(),
{
    let mut out: Vec<MemoryCommand> = none_of();
    put(
        &mut out,
        MemoryCommand {
            name: lit("memory"),
            usage: None,
            summary: lit("存下来的那些话"),
            action: lit("list"),
        },
    );
    put(
        &mut out,
        MemoryCommand {
            name: lit("remember"),
            usage: Some(lit("<要记住的话>")),
            summary: lit("记住一句话,以后每个会话都带着"),
            action: lit("remember"),
        },
    );
    put(
        &mut out,
        MemoryCommand {
            name: lit("forget"),
            usage: Some(lit("<要忘掉的话>")),
            summary: lit("把记住的某句话删掉"),
            action: lit("forget"),
        },
    );
    assert(out.deep_view() =~= memory_actions());
    out
}

/// What a memory command calls the tool with: forgetting goes by a keyword,
/// remembering takes what to remember, and both need something to go by.
pub open spec fn memory_called(c: MemoryCommandView, args: Seq<char>) -> Result<
    Seq<char>,
    Seq<char>,
> {
    if text::is_blank(args) {
        if c.action == "list"@ {
            Ok("{\"action\":"@ + json::quoted(c.action) + "}"@)
        } else {
            Err("要有话可"@ + c.summary)
        }
    } else {
        Ok(
            "{\"action\":"@ + json::quoted(c.action) + (if c.action == "forget"@ {
                ",\"keyword\":"@
            } else {
                ",\"content\":"@
            }) + json::quoted(text::trimmed(args)) + "}"@,
        )
    }
}

pub open spec fn call_made(r: Result<String, String>) -> Result<Seq<char>, Seq<char>> {
    match r {
        Ok(s) => Ok(s@),
        Err(e) => Err(e@),
    }
}

impl MemoryCommand {
    pub fn call(&self, args: &str) -> (r: Result<String, String>)
        ensures
            call_made(r) == memory_called(self.deep_view(), args@),
    {
        let content = trim(args);
        if content.is_empty() {
            if same(self.action.as_str(), "list") {
                Ok(lit("{\"action\":").concat(quote(self.action.as_str()).as_str()).concat("}"))
            } else {
                Err(lit("要有话可").concat(self.summary.as_str()))
            }
        } else {
            let key = if same(self.action.as_str(), "forget") {
                ",\"keyword\":"
            } else {
                ",\"content\":"
            };
            Ok(
                lit("{\"action\":").concat(quote(self.action.as_str()).as_str()).concat(
                    key,
                ).concat(quote(content).as_str()).concat("}"),
            )
        }
    }
}

/// What is said of memory: where its three tiers are kept.
pub fn memory_note(global: &str, project: &str, local: &str) -> (r: String)
    ensures
        r@ == "MEMORY — three tiers, merged on the first turn of every session:\n  global   "@ + global@ + "   (every project)\n  project  "@ + project@ + "   (this repo, committed)\n  local    "@ + local@ + "   (this repo on this machine only)\nWrite with the `memory` tool: `{action: remember|forget|list, content, scope: project|local|global}`. Memory is what someone chose to state; for everything that was merely *said*, use `recall` instead."@,
{
    lit("MEMORY — three tiers, merged on the first turn of every session:\n  global   ").concat(global).concat("   (every project)\n  project  ").concat(project).concat("   (this repo, committed)\n  local    ").concat(local).concat("   (this repo on this machine only)\nWrite with the `memory` tool: `{action: remember|forget|list, content, scope: project|local|global}`. Memory is what someone chose to state; for everything that was merely *said*, use `recall` instead.")
}

/// What memory puts into a turn: all of it, into the first one, as a fact that names
/// where it came from.
pub open spec fn remembered(turn: u64, merged: Seq<char>, inject: bool) -> Option<SessionEventView> {
    if merged.len() == 0 || !inject || turn != 1 {
        None
    } else {
        Some(
            SessionEventView::Injected { turn, text: merged, origin: InjectionOriginView::Memory },
        )
    }
}

pub fn memory_injection(turn: u64, merged: &str, inject: bool) -> (r: Option<SessionEvent>)
    ensures
        r.deep_view() == remembered(turn, merged@, inject),
{
    if merged.is_empty() || !inject || turn != 1 {
        None
    } else {
        Some(
            SessionEvent::Injected { turn, text: lit(merged), origin: InjectionOrigin::Memory },
        )
    }
}

// ---- external servers -----------------------------------------------------

/// How long the first connections may take, in milliseconds, where a row does not say.
pub fn default_connect_ms() -> (r: u64)
    ensures
        r == 10_000,
{
    10_000
}

/// What is mounted: every tool that can be, in order; one that collides is left out and
/// the rest stay.
pub open spec fn mounting(found: Seq<AdaptedView>) -> MountingView
    decreases found.len(),
{
    if found.len() == 0 {
        MountingView { mounted: Seq::empty(), skipped: Seq::empty() }
    } else {
        let m = mounting(found.drop_last());
        match found.last() {
            AdaptedView::Tool(name) => MountingView { mounted: m.mounted.push(name), ..m },
            AdaptedView::Refused(why) => MountingView {
                skipped: m.skipped.push("mcp: skipping a tool: "@ + why),
                ..m
            },
        }
    }
}

pub fn mount_found(found: &Vec<Adapted>) -> (m: Mounting)
    ensures
        m.deep_view() == mounting(found.deep_view()),
{
    let ghost all = found.deep_view();
    let mut mounted: Vec<String> = none_of();
    let mut skipped: Vec<String> = none_of();
    let mut i: usize = 0;
    assert(all.take(0).len() == 0);
    while i < found.len()
        invariant
            i <= found.len(),
            all == found.deep_view(),
            mounted.deep_view() == mounting(all.take(i as int)).mounted,
            skipped.deep_view() == mounting(all.take(i as int)).skipped,
        decreases found.len() - i,
    {
        assert(all.take(i + 1).drop_last() =~= all.take(i as int));
        assert(all.take(i + 1).last() == found@[i as int].deep_view());
        match &found[i] {
            Adapted::Tool(name) => {
                put(&mut mounted, name.clone());
            },
            Adapted::Refused(why) => {
                put(&mut skipped, lit("mcp: skipping a tool: ").concat(why.as_str()));
            },
        }
        i = i + 1;
    }
    assert(all.take(i as int) =~= all);
    Mounting { mounted, skipped }
}

// ---- laws -----------------------------------------------------------------

/// A skill never takes a name that is taken, and no two skills share one.
pub proof fn law_skills_yield(taken: Set<Seq<char>>, skills: Seq<Seq<char>>)
    ensures
        forall|i: int|
            0 <= i < offered(taken, skills).1.len() ==> !taken.contains(
                bared(#[trigger] offered(taken, skills).1[i]),
            ),
        forall|i: int, j: int|
            0 <= i < j < offered(taken, skills).1.len() ==> bared(
                #[trigger] offered(taken, skills).1[i],
            ) != bared(#[trigger] offered(taken, skills).1[j]),
        taken.subset_of(offered(taken, skills).0),
{
    lemma_offered(taken, skills);
}

proof fn lemma_offered(taken: Set<Seq<char>>, skills: Seq<Seq<char>>)
    ensures
        taken.subset_of(offered(taken, skills).0),
        forall|i: int|
            #![trigger offered(taken, skills).1[i]]
            0 <= i < offered(taken, skills).1.len() ==> offered(taken, skills).0.contains(
                bared(offered(taken, skills).1[i]),
            ) && !taken.contains(bared(offered(taken, skills).1[i])),
        forall|i: int, j: int|
            0 <= i < j < offered(taken, skills).1.len() ==> bared(
                #[trigger] offered(taken, skills).1[i],
            ) != bared(#[trigger] offered(taken, skills).1[j]),
    decreases skills.len(),
{
    if skills.len() > 0 {
        lemma_offered(taken, skills.drop_last());
    }
}

/// Memory reaches a session once: in its first turn and in no other.
pub proof fn law_memory_comes_once(turn: u64, merged: Seq<char>)
    ensures
        merged.len() > 0 ==> (remembered(turn, merged, true) is Some <==> turn == 1),
        remembered(turn, merged, false) is None,
{
}

/// Nothing an external server offers is lost without a word.
pub proof fn law_every_tool_is_accounted_for(found: Seq<AdaptedView>)
    ensures
        mounting(found).mounted.len() + mounting(found).skipped.len() == found.len(),
    decreases found.len(),
{
    if found.len() > 0 {
        law_every_tool_is_accounted_for(found.drop_last());
    }
}

} // verus!

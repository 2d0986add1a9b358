//! Roles: what a member of a team may touch, which model tier it runs on, and who it
//! is.
//!
//! Some ship built in. A directory adds to them or replaces them with one file per
//! role: `key: value` lines between `---` fences, then the persona.
use crate::data::{none_of, put, Dup};
use crate::effort;
use crate::effort::{levels, ReasoningEffort};
use crate::text;
use crate::text::{among, bare, join, lines_of, lit, same, split, split_once, trim};
use vstd::prelude::*;

verus! {

/// What a role may touch.
#[derive(Clone, Copy, Debug, PartialEq, Eq, Structural)]
pub enum Access {
    /// Read; change nothing.
    Explore,
    /// Read, and write files. Never a shell.
    Worker,
}

impl DeepView for Access {
    type V = Access;

    open spec fn deep_view(&self) -> Access {
        *self
    }
}

impl Dup for Access {
    fn dup(&self) -> (r: Self) {
        *self
    }
}

/// Which model tier a role runs on.
#[derive(Clone, Copy, Debug, PartialEq, Eq, Structural)]
pub enum Difficulty {
    /// The utility model will do, where one is mounted.
    Simple,
    /// The conversation's model.
    Hard,
}

impl DeepView for Difficulty {
    type V = Difficulty;

    open spec fn deep_view(&self) -> Difficulty {
        *self
    }
}

impl Dup for Difficulty {
    fn dup(&self) -> (r: Self) {
        *self
    }
}

/// A role.
#[derive(Debug, PartialEq, Eq)]
pub struct Role {
    pub id: String,
    pub permission: Access,
    pub difficulty: Difficulty,
    pub persona: String,
    pub when: String,
    /// An explicit tool list, instead of the permission's.
    pub tools: Option<Vec<String>>,
    /// A model to run on, whatever the difficulty says.
    pub model: Option<String>,
    /// It came with the project rather than from the person.
    pub from_project: bool,
    /// How hard to think; unset leaves the session's setting.
    pub effort: Option<ReasoningEffort>,
}

/// What a [`Role`] holds.
#[verifier::ext_equal]
pub struct RoleView {
    pub id: Seq<char>,
    pub permission: Access,
    pub difficulty: Difficulty,
    pub persona: Seq<char>,
    pub when: Seq<char>,
    pub tools: Option<Seq<Seq<char>>>,
    pub model: Option<Seq<char>>,
    pub from_project: bool,
    pub effort: Option<ReasoningEffort>,
}

impl DeepView for Role {
    type V = RoleView;

    open spec fn deep_view(&self) -> RoleView {
        RoleView {
            id: self.id.deep_view(),
            permission: self.permission.deep_view(),
            difficulty: self.difficulty.deep_view(),
            persona: self.persona.deep_view(),
            when: self.when.deep_view(),
            tools: self.tools.deep_view(),
            model: self.model.deep_view(),
            from_project: self.from_project.deep_view(),
            effort: self.effort.deep_view(),
        }
    }
}

impl Dup for Role {
    fn dup(&self) -> (r: Self) {
        Role {
            id: self.id.dup(),
            permission: self.permission.dup(),
            difficulty: self.difficulty.dup(),
            persona: self.persona.dup(),
            when: self.when.dup(),
            tools: self.tools.dup(),
            model: self.model.dup(),
            from_project: self.from_project.dup(),
            effort: self.effort.dup(),
        }
    }
}

impl Clone for Role {
    fn clone(&self) -> (r: Self)
        ensures
            r.deep_view() == self.deep_view(),
    {
        self.dup()
    }
}

/// A role file as it was found.
#[derive(Debug, PartialEq, Eq)]
pub struct RoleFile {
    pub path: String,
    /// Its name without the extension, where that is text.
    pub stem: Option<String>,
    /// What it holds, where it could be read.
    pub content: Option<String>,
    /// Why it could not be.
    pub trouble: String,
}

/// What a [`RoleFile`] holds.
#[verifier::ext_equal]
pub struct RoleFileView {
    pub path: Seq<char>,
    pub stem: Option<Seq<char>>,
    pub content: Option<Seq<char>>,
    pub trouble: Seq<char>,
}

impl DeepView for RoleFile {
    type V = RoleFileView;

    open spec fn deep_view(&self) -> RoleFileView {
        RoleFileView {
            path: self.path.deep_view(),
            stem: self.stem.deep_view(),
            content: self.content.deep_view(),
            trouble: self.trouble.deep_view(),
        }
    }
}

impl Dup for RoleFile {
    fn dup(&self) -> (r: Self) {
        RoleFile {
            path: self.path.dup(),
            stem: self.stem.dup(),
            content: self.content.dup(),
            trouble: self.trouble.dup(),
        }
    }
}

impl Clone for RoleFile {
    fn clone(&self) -> (r: Self)
        ensures
            r.deep_view() == self.deep_view(),
    {
        self.dup()
    }
}

/// What has been read of a role file.
#[derive(Debug, PartialEq, Eq)]
pub struct Front {
    pub permission: Option<Access>,
    pub difficulty: Option<Difficulty>,
    pub effort: Option<ReasoningEffort>,
    pub when: String,
    pub tools: Option<Vec<String>>,
    pub model: Option<String>,
    pub body: String,
    /// Still before the closing fence.
    pub in_front: bool,
    /// What is wrong with it.
    pub trouble: Option<String>,
}

/// What a [`Front`] holds.
#[verifier::ext_equal]
pub struct FrontView {
    pub permission: Option<Access>,
    pub difficulty: Option<Difficulty>,
    pub effort: Option<ReasoningEffort>,
    pub when: Seq<char>,
    pub tools: Option<Seq<Seq<char>>>,
    pub model: Option<Seq<char>>,
    pub body: Seq<char>,
    pub in_front: bool,
    pub trouble: Option<Seq<char>>,
}

impl DeepView for Front {
    type V = FrontView;

    open spec fn deep_view(&self) -> FrontView {
        FrontView {
            permission: self.permission.deep_view(),
            difficulty: self.difficulty.deep_view(),
            effort: self.effort.deep_view(),
            when: self.when.deep_view(),
            tools: self.tools.deep_view(),
            model: self.model.deep_view(),
            body: self.body.deep_view(),
            in_front: self.in_front.deep_view(),
            trouble: self.trouble.deep_view(),
        }
    }
}

impl Dup for Front {
    fn dup(&self) -> (r: Self) {
        Front {
            permission: self.permission.dup(),
            difficulty: self.difficulty.dup(),
            effort: self.effort.dup(),
            when: self.when.dup(),
            tools: self.tools.dup(),
            model: self.model.dup(),
            body: self.body.dup(),
            in_front: self.in_front.dup(),
            trouble: self.trouble.dup(),
        }
    }
}

impl Clone for Front {
    fn clone(&self) -> (r: Self)
        ensures
            r.deep_view() == self.deep_view(),
    {
        self.dup()
    }
}

pub open spec fn shipped(
    id: Seq<char>,
    permission: Access,
    difficulty: Difficulty,
    effort: ReasoningEffort,
    persona: Seq<char>,
    when: Seq<char>,
) -> RoleView {
    RoleView {
        id,
        permission,
        difficulty,
        persona,
        when,
        tools: None,
        model: None,
        from_project: false,
        effort: Some(effort),
    }
}

/// A role that ships. It names no model: which models exist is a fact about the
/// deployment.
fn built_in(
    id: &str,
    permission: Access,
    difficulty: Difficulty,
    effort: ReasoningEffort,
    persona: &str,
    when: &str,
) -> (r: Role)
    ensures
        r.deep_view() == shipped(id@, permission, difficulty, effort, persona@, when@),
{
    Role {
        id: lit(id),
        permission,
        difficulty,
        persona: lit(persona),
        when: lit(when),
        tools: None,
        model: None,
        from_project: false,
        effort: Some(effort),
    }
}

/// The roles that ship. The one that looks a change over for problems goes by `auditor`,
/// here and wherever a text speaks of it.
pub open spec fn shipped_roles() -> Seq<RoleView> {
    seq![
        shipped(
            "explorer"@,
            Access::Explore,
            Difficulty::Simple,
            ReasoningEffort::Low,
            "You find things: code paths, call chains, where a symbol lives. You report locations with file and line, and you do not speculate."@,
            "code search and call-chain discovery"@,
        ),
        shipped(
            "auditor"@,
            Access::Explore,
            Difficulty::Hard,
            ReasoningEffort::Max,
            "You review code for defects and risks. You report each issue with the file, the line range and why it matters, and you change nothing."@,
            "reviewing a change or a file for problems"@,
        ),
        shipped(
            "implementer"@,
            Access::Worker,
            Difficulty::Hard,
            ReasoningEffort::Max,
            "You implement what you are asked, in the files you are told about. You make the smallest change that does the job and report exactly what you changed."@,
            "a self-contained change with a clear scope"@,
        ),
        shipped(
            "tester"@,
            Access::Worker,
            Difficulty::Hard,
            ReasoningEffort::Max,
            "You write and adjust tests. You report which tests you touched and what each one proves."@,
            "adding or fixing tests for a change"@,
        ),
        shipped(
            "planner"@,
            Access::Explore,
            Difficulty::Hard,
            ReasoningEffort::Max,
            "You break work down and plan who does what. You report a plan: the steps, their order, what each depends on and which role should take it."@,
            "decomposing a task and planning delegation"@,
        ),
        shipped(
            "architect"@,
            Access::Explore,
            Difficulty::Hard,
            ReasoningEffort::Max,
            "You map ownership and boundaries: which crate or module owns what, what a change crosses, and what it does to protocols and stored data. You cite files."@,
            "runtime ownership, crate boundaries, protocol and persistence impact"@,
        ),
        shipped(
            "rust"@,
            Access::Worker,
            Difficulty::Hard,
            ReasoningEffort::Max,
            "You write Rust: async, traits, error handling and tests. You make the smallest change that compiles cleanly and report exactly what you changed."@,
            "Rust async, trait, error-handling and test work"@,
        ),
        shipped(
            "tui_ux"@,
            Access::Worker,
            Difficulty::Hard,
            ReasoningEffort::Max,
            "You build terminal UI: state, layout, width and interaction. You report what changed on screen and in which files."@,
            "terminal UI state, layout, width and interaction"@,
        ),
        shipped(
            "debugger"@,
            Access::Explore,
            Difficulty::Hard,
            ReasoningEffort::Max,
            "You reproduce failures and isolate their root cause. You report the cause with the evidence for it, and you change nothing."@,
            "reproducing a failure and isolating its root cause"@,
        ),
        shipped(
            "security"@,
            Access::Explore,
            Difficulty::Hard,
            ReasoningEffort::Max,
            "You assess risk: approvals, secrets, path scope and anything that runs without asking. You report each risk with where it is and why it matters."@,
            "approval, secrets, path scope and auto-execution risk"@,
        ),
        shipped(
            "performance"@,
            Access::Explore,
            Difficulty::Hard,
            ReasoningEffort::Max,
            "You analyse performance: concurrency, tokens, rendering, latency and memory. You report what is slow or large, with the evidence."@,
            "concurrency, token, rendering, latency and memory concerns"@,
        ),
        shipped(
            "release_manager"@,
            Access::Explore,
            Difficulty::Simple,
            ReasoningEffort::Low,
            "You check that a change is ready to ship: the validation that ran, what did not, and the state of the branch. You report a checklist."@,
            "the final validation matrix and branch hygiene"@,
        ),
        shipped(
            "migration_compat"@,
            Access::Explore,
            Difficulty::Hard,
            ReasoningEffort::Max,
            "You review compatibility: legacy data, importers and anything on the wire. You report what an older reader or writer would get wrong."@,
            "legacy, importer and wire compatibility review"@,
        ),
        shipped(
            "docs_writer"@,
            Access::Worker,
            Difficulty::Simple,
            ReasoningEffort::Low,
            "You write and edit documentation. You keep to the facts you were given and report which files you touched."@,
            "documentation for something already decided"@,
        ),
    ]
}

pub fn built_in_roles() -> (out: Vec<Role>)
    ensures
        out.deep_view() == shipped_roles(),
{
    let mut out: Vec<Role> = none_of();
    put(
        &mut out,
        built_in(
            "explorer",
            Access::Explore,
            Difficulty::Simple,
            ReasoningEffort::Low,
            "You find things: code paths, call chains, where a symbol lives. You report locations with file and line, and you do not speculate.",
            "code search and call-chain discovery",
        ),
    );
    put(
        &mut out,
        built_in(
            "auditor",
            Access::Explore,
            Difficulty::Hard,
            ReasoningEffort::Max,
            "You review code for defects and risks. You report each issue with the file, the line range and why it matters, and you change nothing.",
            "reviewing a change or a file for problems",
        ),
    );
    put(
        &mut out,
        built_in(
            "implementer",
            Access::Worker,
            Difficulty::Hard,
            ReasoningEffort::Max,
            "You implement what you are asked, in the files you are told about. You make the smallest change that does the job and report exactly what you changed.",
            "a self-contained change with a clear scope",
        ),
    );
    put(
        &mut out,
        built_in(
            "tester",
            Access::Worker,
            Difficulty::Hard,
            ReasoningEffort::Max,
            "You write and adjust tests. You report which tests you touched and what each one proves.",
            "adding or fixing tests for a change",
        ),
    );
    put(
        &mut out,
        built_in(
            "planner",
            Access::Explore,
            Difficulty::Hard,
            ReasoningEffort::Max,
            "You break work down and plan who does what. You report a plan: the steps, their order, what each depends on and which role should take it.",
            "decomposing a task and planning delegation",
        ),
    );
    put(
        &mut out,
        built_in(
            "architect",
            Access::Explore,
            Difficulty::Hard,
            ReasoningEffort::Max,
            "You map ownership and boundaries: which crate or module owns what, what a change crosses, and what it does to protocols and stored data. You cite files.",
            "runtime ownership, crate boundaries, protocol and persistence impact",
        ),
    );
    put(
        &mut out,
        built_in(
            "rust",
            Access::Worker,
            Difficulty::Hard,
            ReasoningEffort::Max,
            "You write Rust: async, traits, error handling and tests. You make the smallest change that compiles cleanly and report exactly what you changed.",
            "Rust async, trait, error-handling and test work",
        ),
    );
    put(
        &mut out,
        built_in(
            "tui_ux",
            Access::Worker,
            Difficulty::Hard,
            ReasoningEffort::Max,
            "You build terminal UI: state, layout, width and interaction. You report what changed on screen and in which files.",
            "terminal UI state, layout, width and interaction",
        ),
    );
    put(
        &mut out,
        built_in(
            "debugger",
            Access::Explore,
            Difficulty::Hard,
            ReasoningEffort::Max,
            "You reproduce failures and isolate their root cause. You report the cause with the evidence for it, and you change nothing.",
            "reproducing a failure and isolating its root cause",
        ),
    );
    put(
        &mut out,
        built_in(
            "security",
            Access::Explore,
            Difficulty::Hard,
            ReasoningEffort::Max,
            "You assess risk: approvals, secrets, path scope and anything that runs without asking. You report each risk with where it is and why it matters.",
            "approval, secrets, path scope and auto-execution risk",
        ),
    );
    put(
        &mut out,
        built_in(
            "performance",
            Access::Explore,
            Difficulty::Hard,
            ReasoningEffort::Max,
            "You analyse performance: concurrency, tokens, rendering, latency and memory. You report what is slow or large, with the evidence.",
            "concurrency, token, rendering, latency and memory concerns",
        ),
    );
    put(
        &mut out,
        built_in(
            "release_manager",
            Access::Explore,
            Difficulty::Simple,
            ReasoningEffort::Low,
            "You check that a change is ready to ship: the validation that ran, what did not, and the state of the branch. You report a checklist.",
            "the final validation matrix and branch hygiene",
        ),
    );
    put(
        &mut out,
        built_in(
            "migration_compat",
            Access::Explore,
            Difficulty::Hard,
            ReasoningEffort::Max,
            "You review compatibility: legacy data, importers and anything on the wire. You report what an older reader or writer would get wrong.",
            "legacy, importer and wire compatibility review",
        ),
    );
    put(
        &mut out,
        built_in(
            "docs_writer",
            Access::Worker,
            Difficulty::Simple,
            ReasoningEffort::Low,
            "You write and edit documentation. You keep to the facts you were given and report which files you touched.",
            "documentation for something already decided",
        ),
    );
    assert(out.deep_view() =~= shipped_roles());
    out
}

// ---- tools ----------------------------------------------------------------

/// What a member that only reads may be given. Reading the public internet is still
/// reading.
pub open spec fn reading() -> Seq<Seq<char>> {
    seq![
        "read_file"@,
        "list_directory"@,
        "grep"@,
        "glob"@,
        "list_symbols"@,
        "read_symbol"@,
        "web_search"@,
        "web_fetch"@,
    ]
}

pub open spec fn writing() -> Seq<Seq<char>> {
    seq!["edit_file"@, "write_file"@, "search_replace"@]
}

/// Everything a member with this permission may be given.
pub open spec fn allowed(permission: Access) -> Seq<Seq<char>> {
    match permission {
        Access::Explore => reading(),
        Access::Worker => reading() + writing(),
    }
}

pub fn explore_tools() -> (out: Vec<String>)
    ensures
        out.deep_view() == reading(),
{
    let mut out: Vec<String> = none_of();
    put(&mut out, lit("read_file"));
    put(&mut out, lit("list_directory"));
    put(&mut out, lit("grep"));
    put(&mut out, lit("glob"));
    put(&mut out, lit("list_symbols"));
    put(&mut out, lit("read_symbol"));
    put(&mut out, lit("web_search"));
    put(&mut out, lit("web_fetch"));
    assert(out.deep_view() =~= reading());
    out
}

pub fn default_tools(permission: Access) -> (out: Vec<String>)
    ensures
        out.deep_view() == allowed(permission),
{
    let mut out = explore_tools();
    match permission {
        Access::Explore => {},
        Access::Worker => {
            put(&mut out, lit("edit_file"));
            put(&mut out, lit("write_file"));
            put(&mut out, lit("search_replace"));
            assert(out.deep_view() =~= reading() + writing());
        },
    }
    out
}

/// The tools of a role: its own list, or everything its permission allows.
pub open spec fn tools_of(r: RoleView) -> Seq<Seq<char>> {
    match r.tools {
        Some(listed) => listed,
        None => allowed(r.permission),
    }
}

pub fn tools_for(role: &Role) -> (out: Vec<String>)
    ensures
        out.deep_view() == tools_of(role.deep_view()),
{
    match &role.tools {
        Some(listed) => listed.dup(),
        None => default_tools(role.permission),
    }
}

// ---- reading a role file --------------------------------------------------

pub open spec fn nothing_read() -> FrontView {
    FrontView {
        permission: None,
        difficulty: None,
        effort: None,
        when: Seq::empty(),
        tools: None,
        model: None,
        body: Seq::empty(),
        in_front: true,
        trouble: None,
    }
}

/// A value, without its comment, the white space around it, and its quotes.
pub open spec fn value_of(raw: Seq<char>) -> Seq<char> {
    text::bared(text::trimmed(text::pieces(raw, '#')[0]), "\""@)
}

/// The tools a list names: between commas, unquoted, none empty.
pub open spec fn named_tools(parts: Seq<Seq<char>>) -> Seq<Seq<char>>
    decreases parts.len(),
{
    if parts.len() == 0 {
        Seq::empty()
    } else {
        let name = text::bared(text::trimmed(parts.last()), "\"'"@);
        if name.len() == 0 {
            named_tools(parts.drop_last())
        } else {
            named_tools(parts.drop_last()).push(name)
        }
    }
}

/// What one line between the fences says.
pub open spec fn keyed(path: Seq<char>, f: FrontView, key: Seq<char>, value: Seq<char>) -> FrontView {
    if key == "permission"@ {
        if value == "explore"@ {
            FrontView { permission: Some(Access::Explore), ..f }
        } else if value == "worker"@ {
            FrontView { permission: Some(Access::Worker), ..f }
        } else {
            FrontView {
                trouble: Some(
                    path + ": permission must be explore or worker, not `"@ + value + "`"@,
                ),
                ..f
            }
        }
    } else if key == "difficulty"@ {
        if value == "simple"@ {
            FrontView { difficulty: Some(Difficulty::Simple), ..f }
        } else if value == "hard"@ {
            FrontView { difficulty: Some(Difficulty::Hard), ..f }
        } else {
            FrontView {
                trouble: Some(path + ": difficulty must be simple or hard, not `"@ + value + "`"@),
                ..f
            }
        }
    } else if key == "effort"@ {
        match effort::configured(Some(value)) {
            Some(level) => FrontView { effort: Some(level), ..f },
            None => FrontView {
                trouble: Some(
                    path + ": effort must be one of "@ + text::joined(
                        effort::level_names(),
                        ", "@,
                    ) + ", not `"@ + value + "`"@,
                ),
                ..f
            },
        }
    } else if key == "when"@ {
        FrontView { when: value, ..f }
    } else if key == "model"@ {
        FrontView {
            model: if value.len() == 0 {
                None
            } else {
                Some(value)
            },
            ..f
        }
    } else if key == "tools"@ {
        FrontView {
            tools: Some(named_tools(text::pieces(text::bared(value, "[]"@), ','))),
            ..f
        }
    } else {
        f
    }
}

/// What one line adds. Nothing, once something is wrong.
pub open spec fn line_read(path: Seq<char>, f: FrontView, line: Seq<char>) -> FrontView {
    if f.trouble is Some {
        f
    } else if !f.in_front {
        FrontView { body: f.body + line + "\n"@, ..f }
    } else if text::trimmed(line) == "---"@ {
        FrontView { in_front: false, ..f }
    } else {
        match text::cut(line, ':') {
            Some((key, value)) => keyed(path, f, text::trimmed(key), value_of(value)),
            None => f,
        }
    }
}

/// What the lines after the opening fence say.
pub open spec fn lines_read(path: Seq<char>, lines: Seq<Seq<char>>) -> FrontView
    decreases lines.len(),
{
    if lines.len() == 0 {
        nothing_read()
    } else {
        line_read(path, lines_read(path, lines.drop_last()), lines.last())
    }
}

/// The first of the tools that is not allowed.
pub open spec fn first_extra(tools: Seq<Seq<char>>, allowed: Seq<Seq<char>>) -> Option<Seq<char>>
    decreases tools.len(),
{
    if tools.len() == 0 {
        None
    } else {
        match first_extra(tools.drop_last(), allowed) {
            Some(t) => Some(t),
            None => if allowed.contains(tools.last()) {
                None
            } else {
                Some(tools.last())
            },
        }
    }
}

pub open spec fn access_name(a: Access) -> Seq<char> {
    match a {
        Access::Explore => "explore"@,
        Access::Worker => "worker"@,
    }
}

pub open spec fn extra_tool(f: FrontView, permission: Access) -> Option<Seq<char>> {
    match f.tools {
        Some(listed) => first_extra(listed, allowed(permission)),
        None => None,
    }
}

/// The role a file makes once it is read, or what is wrong with it.
pub open spec fn made(path: Seq<char>, id: Seq<char>, f: FrontView) -> Result<RoleView, Seq<char>> {
    match f.trouble {
        Some(t) => Err(t),
        None => if f.in_front {
            Err(path + ": frontmatter never closed"@)
        } else if text::trimmed(f.body).len() == 0 {
            Err(path + ": no persona after the frontmatter"@)
        } else {
            match f.permission {
                None => Err(path + ": `permission` is required"@),
                Some(permission) => match extra_tool(f, permission) {
                    Some(extra) => Err(
                        path + ": a "@ + access_name(permission) + " member may not have `"@ + extra
                            + "`; choose from: "@ + text::joined(allowed(permission), ", "@),
                    ),
                    None => match f.difficulty {
                        None => Err(path + ": `difficulty` is required"@),
                        Some(difficulty) => Ok(
                            RoleView {
                                id,
                                permission,
                                difficulty,
                                persona: text::trimmed(f.body),
                                when: f.when,
                                tools: f.tools,
                                model: f.model,
                                from_project: false,
                                effort: f.effort,
                            },
                        ),
                    },
                },
            }
        },
    }
}

pub open spec fn role_in(path: Seq<char>, id: Seq<char>, content: Seq<char>) -> Result<
    RoleView,
    Seq<char>,
> {
    let all = text::lines(content);
    if all.len() == 0 {
        Err(path + ": empty"@)
    } else if text::trimmed(all[0]) != "---"@ {
        Err(path + ": a role file begins with `---`"@)
    } else {
        made(path, id, lines_read(path, all.skip(1)))
    }
}

/// The role in a file as it was found.
pub open spec fn role_of(f: RoleFileView) -> Result<RoleView, Seq<char>> {
    match f.stem {
        None => Err(f.path + ": not a role file name"@),
        Some(id) => match f.content {
            None => Err(f.path + ": "@ + f.trouble),
            Some(content) => role_in(f.path, id, content),
        },
    }
}

pub open spec fn role_view(r: Result<Role, String>) -> Result<RoleView, Seq<char>> {
    match r {
        Ok(role) => Ok(role.deep_view()),
        Err(e) => Err(e@),
    }
}

fn clean(raw: &str) -> (r: String)
    ensures
        r@ == value_of(raw@),
{
    let parts = split(raw, '#');
    assert(text::pieces(raw@, '#').len() > 0);
    assert(parts.deep_view()[0] == parts@[0]@);
    lit(bare(trim(parts[0].as_str()), "\""))
}

fn list_tools(value: &str) -> (out: Vec<String>)
    ensures
        out.deep_view() == named_tools(text::pieces(text::bared(value@, "[]"@), ',')),
{
    let parts = split(bare(value, "[]"), ',');
    let ghost all = parts.deep_view();
    let mut out: Vec<String> = none_of();
    let mut i: usize = 0;
    assert(all.take(0) =~= Seq::<Seq<char>>::empty());
    while i < parts.len()
        invariant
            i <= parts.len(),
            all == parts.deep_view(),
            out.deep_view() == named_tools(all.take(i as int)),
        decreases parts.len() - i,
    {
        assert(all.take(i + 1).drop_last() =~= all.take(i as int));
        assert(all.take(i + 1).last() == parts@[i as int]@);
        let name = bare(trim(parts[i].as_str()), "\"'");
        if !name.is_empty() {
            put(&mut out, lit(name));
        }
        i = i + 1;
    }
    assert(all.take(i as int) =~= all);
    out
}

impl Front {
    pub fn new() -> (f: Self)
        ensures
            f.deep_view() == nothing_read(),
    {
        Front {
            permission: None,
            difficulty: None,
            effort: None,
            when: String::new(),
            tools: None,
            model: None,
            body: String::new(),
            in_front: true,
            trouble: None,
        }
    }

    fn set(&mut self, path: &str, key: &str, value: &str)
        ensures
            final(self).deep_view() == keyed(path@, old(self).deep_view(), key@, value@),
    {
        if same(key, "permission") {
            if same(value, "explore") {
                self.permission = Some(Access::Explore);
            } else if same(value, "worker") {
                self.permission = Some(Access::Worker);
            } else {
                self.trouble = Some(
                    lit(path).concat(": permission must be explore or worker, not `").concat(
                        value,
                    ).concat("`"),
                );
            }
        } else if same(key, "difficulty") {
            if same(value, "simple") {
                self.difficulty = Some(Difficulty::Simple);
            } else if same(value, "hard") {
                self.difficulty = Some(Difficulty::Hard);
            } else {
                self.trouble = Some(
                    lit(path).concat(": difficulty must be simple or hard, not `").concat(
                        value,
                    ).concat("`"),
                );
            }
        } else if same(key, "effort") {
            match ReasoningEffort::from_config(Some(value)) {
                Some(level) => {
                    self.effort = Some(level);
                },
                None => {
                    self.trouble = Some(
                        lit(path).concat(": effort must be one of ").concat(
                            join(&levels(), ", ").as_str(),
                        ).concat(", not `").concat(value).concat("`"),
                    );
                },
            }
        } else if same(key, "when") {
            self.when = lit(value);
        } else if same(key, "model") {
            self.model = if value.is_empty() {
                None
            } else {
                Some(lit(value))
            };
        } else if same(key, "tools") {
            self.tools = Some(list_tools(value));
        }
    }

    fn read(&mut self, path: &str, line: &str)
        ensures
            final(self).deep_view() == line_read(path@, old(self).deep_view(), line@),
    {
        if self.trouble.is_some() {
        } else if !self.in_front {
            self.body.append(line);
            self.body.append("\n");
        } else if same(trim(line), "---") {
            self.in_front = false;
        } else {
            match split_once(line, ':') {
                Some((key, value)) => {
                    let value = clean(value.as_str());
                    self.set(path, trim(key.as_str()), value.as_str());
                },
                None => {},
            }
        }
    }
}

fn find_extra(tools: &Vec<String>, allowed: &Vec<String>) -> (r: Option<String>)
    ensures
        r.deep_view() == first_extra(tools.deep_view(), allowed.deep_view()),
{
    let ghost all = tools.deep_view();
    let mut found: Option<String> = None;
    let mut i: usize = 0;
    assert(all.take(0) =~= Seq::<Seq<char>>::empty());
    while i < tools.len()
        invariant
            i <= tools.len(),
            all == tools.deep_view(),
            found.deep_view() == first_extra(all.take(i as int), allowed.deep_view()),
        decreases tools.len() - i,
    {
        assert(all.take(i + 1).drop_last() =~= all.take(i as int));
        assert(all.take(i + 1).last() == tools@[i as int]@);
        if found.is_none() && !among(allowed, tools[i].as_str()) {
            found = Some(tools[i].clone());
        }
        i = i + 1;
    }
    assert(all.take(i as int) =~= all);
    found
}

impl Access {
    pub fn name(self) -> (r: &'static str)
        ensures
            r@ == access_name(self),
    {
        match self {
            Access::Explore => "explore",
            Access::Worker => "worker",
        }
    }
}

fn make(path: &str, id: &str, f: Front) -> (r: Result<Role, String>)
    ensures
        role_view(r) == made(path@, id@, f.deep_view()),
{
    match f.trouble {
        Some(t) => return Err(t),
        None => {},
    }
    if f.in_front {
        return Err(lit(path).concat(": frontmatter never closed"));
    }
    let persona = lit(trim(f.body.as_str()));
    if persona.as_str().is_empty() {
        return Err(lit(path).concat(": no persona after the frontmatter"));
    }
    let permission = match f.permission {
        Some(p) => p,
        None => return Err(lit(path).concat(": `permission` is required")),
    };
    let may = default_tools(permission);
    let extra = match &f.tools {
        Some(listed) => find_extra(listed, &may),
        None => None,
    };
    match extra {
        Some(extra) => {
            return Err(
                lit(path).concat(": a ").concat(permission.name()).concat(
                    " member may not have `",
                ).concat(extra.as_str()).concat("`; choose from: ").concat(
                    join(&may, ", ").as_str(),
                ),
            );
        },
        None => {},
    }
    match f.difficulty {
        None => Err(lit(path).concat(": `difficulty` is required")),
        Some(difficulty) => Ok(
            Role {
                id: lit(id),
                permission,
                difficulty,
                persona,
                when: f.when,
                tools: f.tools,
                model: f.model,
                from_project: false,
                effort: f.effort,
            },
        ),
    }
}

/// Reads the role `id` from what its file holds. `path` is how errors name the file.
pub fn parse_role(path: &str, id: &str, content: &str) -> (r: Result<Role, String>)
    ensures
        role_view(r) == role_in(path@, id@, content@),
{
    let lines = lines_of(content);
    let ghost all = lines.deep_view();
    if lines.len() == 0 {
        return Err(lit(path).concat(": empty"));
    }
    assert(all[0] == lines@[0]@);
    if !same(trim(lines[0].as_str()), "---") {
        return Err(lit(path).concat(": a role file begins with `---`"));
    }
    let ghost rest = all.skip(1);
    let mut f = Front::new();
    let mut i: usize = 1;
    assert(rest.take(0) =~= Seq::<Seq<char>>::empty());
    while i < lines.len()
        invariant
            1 <= i <= lines.len(),
            all == lines.deep_view(),
            rest == all.skip(1),
            f.deep_view() == lines_read(path@, rest.take(i - 1)),
        decreases lines.len() - i,
    {
        assert(rest.take(i - 1 + 1).drop_last() =~= rest.take(i - 1));
        assert(rest.take(i - 1 + 1).last() == lines@[i as int]@);
        f.read(path, lines[i].as_str());
        i = i + 1;
    }
    assert(rest.take(i - 1) =~= rest);
    make(path, id, f)
}

/// The role in a file as it was found.
pub fn parse_role_file(f: &RoleFile) -> (r: Result<Role, String>)
    ensures
        role_view(r) == role_of(f.deep_view()),
{
    match &f.stem {
        None => Err(f.path.clone().concat(": not a role file name")),
        Some(id) => match &f.content {
            None => Err(f.path.clone().concat(": ").concat(f.trouble.as_str())),
            Some(content) => parse_role(f.path.as_str(), id.as_str(), content.as_str()),
        },
    }
}

// ---- all the roles --------------------------------------------------------

/// Where the role `id` first stands; the length where it does not.
pub open spec fn place(roles: Seq<RoleView>, id: Seq<char>) -> nat
    decreases roles.len(),
{
    if roles.len() == 0 || roles[0].id == id {
        0
    } else {
        1 + place(roles.skip(1), id)
    }
}

pub proof fn lemma_place(roles: Seq<RoleView>, id: Seq<char>, k: int)
    requires
        0 <= k <= roles.len(),
        forall|i: int| 0 <= i < k ==> (#[trigger] roles[i]).id != id,
        k < roles.len() ==> roles[k].id == id,
    ensures
        place(roles, id) == k,
    decreases roles.len(),
{
    if k > 0 {
        assert(roles[0].id != id);
        let rest = roles.skip(1);
        assert forall|i: int| 0 <= i < k - 1 implies (#[trigger] rest[i]).id != id by {
            assert(rest[i] == roles[i + 1]);
        }
        lemma_place(rest, id, k - 1);
    }
}

/// Where the role `id` first stands among the roles.
pub fn find_role(roles: &Vec<Role>, id: &str) -> (r: Option<usize>)
    ensures
        match r {
            Some(i) => i < roles.len() && i == place(roles.deep_view(), id@),
            None => place(roles.deep_view(), id@) == roles.len(),
        },
{
    let ghost all = roles.deep_view();
    let mut i: usize = 0;
    while i < roles.len()
        invariant
            i <= roles.len(),
            all == roles.deep_view(),
            forall|k: int| 0 <= k < i ==> (#[trigger] all[k]).id != id@,
        decreases roles.len() - i,
    {
        assert(all[i as int] == roles@[i as int].deep_view());
        if same(roles[i].id.as_str(), id) {
            proof {
                lemma_place(all, id@, i as int);
            }
            return Some(i);
        }
        i = i + 1;
    }
    proof {
        lemma_place(all, id@, i as int);
    }
    None
}

/// A role added, or put in the place of the one it is named like.
pub open spec fn added(roles: Seq<RoleView>, role: RoleView) -> Seq<RoleView> {
    let k = place(roles, role.id);
    if k < roles.len() {
        roles.update(k as int, role)
    } else {
        roles.push(role)
    }
}

pub fn add_role(roles: &mut Vec<Role>, role: Role)
    ensures
        final(roles).deep_view() == added(old(roles).deep_view(), role.deep_view()),
{
    match find_role(roles, role.id.as_str()) {
        Some(i) => {
            let ghost before = roles.deep_view();
            let ghost v = role.deep_view();
            roles.set(i, role);
            assert(roles.deep_view() =~= before.update(i as int, v));
        },
        None => {
            put(roles, role);
        },
    }
}

/// The roles once the files of a directory are read, in order.
pub open spec fn with_files(
    roles: Result<Seq<RoleView>, Seq<char>>,
    files: Seq<RoleFileView>,
    project: bool,
) -> Result<Seq<RoleView>, Seq<char>>
    decreases files.len(),
{
    if files.len() == 0 {
        roles
    } else {
        match with_files(roles, files.drop_last(), project) {
            Err(e) => Err(e),
            Ok(so_far) => match role_of(files.last()) {
                Err(e) => Err(e),
                Ok(role) => Ok(added(so_far, RoleView { from_project: project, ..role })),
            },
        }
    }
}

/// The roles that ship, then each directory in order. The first directory is the
/// project's own.
pub open spec fn loaded(dirs: Seq<Seq<RoleFileView>>) -> Result<Seq<RoleView>, Seq<char>>
    decreases dirs.len(),
{
    if dirs.len() == 0 {
        Ok(shipped_roles())
    } else {
        with_files(loaded(dirs.drop_last()), dirs.last(), dirs.len() == 1)
    }
}

pub open spec fn roles_view(r: Result<Vec<Role>, String>) -> Result<Seq<RoleView>, Seq<char>> {
    match r {
        Ok(roles) => Ok(roles.deep_view()),
        Err(e) => Err(e@),
    }
}

fn load_files(roles: Vec<Role>, files: &Vec<RoleFile>, project: bool) -> (r: Result<Vec<Role>, String>)
    ensures
        roles_view(r) == with_files(
            Ok::<Seq<RoleView>, Seq<char>>(roles.deep_view()),
            files.deep_view(),
            project,
        ),
{
    let ghost start = Ok::<Seq<RoleView>, Seq<char>>(roles.deep_view());
    let ghost all = files.deep_view();
    let mut out = roles;
    let mut i: usize = 0;
    assert(all.take(0) =~= Seq::<RoleFileView>::empty());
    while i < files.len()
        invariant
            i <= files.len(),
            all == files.deep_view(),
            start == Ok::<Seq<RoleView>, Seq<char>>(roles.deep_view()),
            Ok::<Seq<RoleView>, Seq<char>>(out.deep_view()) == with_files(
                start,
                all.take(i as int),
                project,
            ),
        decreases files.len() - i,
    {
        assert(all.take(i + 1).drop_last() =~= all.take(i as int));
        assert(all.take(i + 1).last() == files@[i as int].deep_view());
        match parse_role_file(&files[i]) {
            Err(e) => {
                let ghost failed = Err::<Seq<RoleView>, Seq<char>>(e@);
                assert(with_files(start, all.take(i + 1), project) == failed);
                proof {
                    lemma_error_stays(start, all, i + 1, project);
                }
                return Err(e);
            },
            Ok(role) => {
                add_role(&mut out, Role { from_project: project, ..role });
            },
        }
        i = i + 1;
    }
    assert(all.take(i as int) =~= all);
    Ok(out)
}

proof fn lemma_error_stays(
    roles: Result<Seq<RoleView>, Seq<char>>,
    files: Seq<RoleFileView>,
    n: int,
    project: bool,
)
    requires
        0 <= n <= files.len(),
        with_files(roles, files.take(n), project) is Err,
    ensures
        with_files(roles, files, project) == with_files(roles, files.take(n), project),
    decreases files.len(),
{
    if n == files.len() {
        assert(files.take(n) =~= files);
    } else {
        assert(files.drop_last().take(n) =~= files.take(n));
        lemma_error_stays(roles, files.drop_last(), n, project);
    }
}

proof fn lemma_load_error_stays(dirs: Seq<Seq<RoleFileView>>, n: int)
    requires
        0 <= n <= dirs.len(),
        loaded(dirs.take(n)) is Err,
    ensures
        loaded(dirs) == loaded(dirs.take(n)),
    decreases dirs.len(),
{
    if n == dirs.len() {
        assert(dirs.take(n) =~= dirs);
    } else {
        assert(dirs.drop_last().take(n) =~= dirs.take(n));
        lemma_load_error_stays(dirs.drop_last(), n);
        lemma_from_error(loaded(dirs.drop_last()), dirs.last(), dirs.len() == 1);
    }
}

proof fn lemma_from_error(
    roles: Result<Seq<RoleView>, Seq<char>>,
    files: Seq<RoleFileView>,
    project: bool,
)
    requires
        roles is Err,
    ensures
        with_files(roles, files, project) == roles,
    decreases files.len(),
{
    if files.len() > 0 {
        lemma_from_error(roles, files.drop_last(), project);
    }
}

/// The roles that ship, then what each directory's files add or replace, in order.
pub fn load_roles(dirs: &Vec<Vec<RoleFile>>) -> (r: Result<Vec<Role>, String>)
    ensures
        roles_view(r) == loaded(dirs.deep_view()),
{
    let ghost all = dirs.deep_view();
    let mut roles = built_in_roles();
    let mut i: usize = 0;
    assert(all.take(0) =~= Seq::<Seq<RoleFileView>>::empty());
    while i < dirs.len()
        invariant
            i <= dirs.len(),
            all == dirs.deep_view(),
            Ok::<Seq<RoleView>, Seq<char>>(roles.deep_view()) == loaded(all.take(i as int)),
        decreases dirs.len() - i,
    {
        assert(all.take(i + 1).drop_last() =~= all.take(i as int));
        assert(all.take(i + 1).last() == dirs@[i as int].deep_view());
        match load_files(roles, &dirs[i], i == 0) {
            Ok(more) => {
                roles = more;
            },
            Err(e) => {
                proof {
                    assert(loaded(all.take(i + 1)) == Err::<Seq<RoleView>, Seq<char>>(e@));
                    lemma_load_error_stays(all, i + 1);
                }
                return Err(e);
            },
        }
        i = i + 1;
    }
    assert(all.take(i as int) =~= all);
    Ok(roles)
}

// ---- laws -----------------------------------------------------------------

/// A role never reaches further than its permission: whatever its file lists, every
/// tool of a role that was read is one its permission allows.
pub proof fn law_a_role_keeps_to_its_permission(
    path: Seq<char>,
    id: Seq<char>,
    content: Seq<char>,
    t: Seq<char>,
)
    ensures
        role_in(path, id, content) matches Ok(r) ==> tools_of(r).contains(t) ==> allowed(
            r.permission,
        ).contains(t),
{
    match role_in(path, id, content) {
        Ok(r) => {
            if tools_of(r).contains(t) {
                match r.tools {
                    Some(listed) => {
                        lemma_no_extra(listed, allowed(r.permission), t);
                    },
                    None => {},
                }
            }
        },
        Err(_) => {},
    }
}

proof fn lemma_no_extra(tools: Seq<Seq<char>>, may: Seq<Seq<char>>, t: Seq<char>)
    requires
        first_extra(tools, may) is None,
        tools.contains(t),
    ensures
        may.contains(t),
    decreases tools.len(),
{
    if tools.last() != t {
        let i = choose|i: int| 0 <= i < tools.len() && tools[i] == t;
        assert(tools.drop_last()[i] == t);
        lemma_no_extra(tools.drop_last(), may, t);
    }
}

/// A member never has a shell, and one that only reads never has a tool that writes.
pub proof fn law_no_shell_for_members(permission: Access)
    ensures
        !allowed(permission).contains("bash"@),
        forall|t: Seq<char>| #[trigger]
            writing().contains(t) ==> !allowed(Access::Explore).contains(t),
{
    reveal_strlit("bash");
    reveal_strlit("read_file");
    reveal_strlit("list_directory");
    reveal_strlit("grep");
    reveal_strlit("glob");
    reveal_strlit("list_symbols");
    reveal_strlit("read_symbol");
    reveal_strlit("web_search");
    reveal_strlit("web_fetch");
    reveal_strlit("edit_file");
    reveal_strlit("write_file");
    reveal_strlit("search_replace");
    assert("bash"@[0] == 'b');
    assert("read_file"@[0] == 'r');
    assert("list_directory"@[0] == 'l');
    assert("grep"@[0] == 'g');
    assert("glob"@[0] == 'g');
    assert("list_symbols"@[0] == 'l');
    assert("read_symbol"@[0] == 'r');
    assert("web_search"@[1] == 'e');
    assert("web_fetch"@[1] == 'e');
    assert("edit_file"@[0] == 'e');
    assert("write_file"@[1] == 'r');
    assert("search_replace"@[0] == 's');
    assert("web_search"@[0] == 'w');
    assert("web_fetch"@[0] == 'w');
}

/// A file named like a role that ships replaces it, in its place, and adds no second
/// one.
pub proof fn law_a_file_replaces_its_namesake(roles: Seq<RoleView>, role: RoleView)
    ensures
        place(roles, role.id) < roles.len() ==> added(roles, role).len() == roles.len(),
        place(added(roles, role), role.id) < added(roles, role).len(),
        added(roles, role)[place(added(roles, role), role.id) as int] == role,
{
    let k = place(roles, role.id) as int;
    lemma_place_is_first(roles, role.id);
    let now = added(roles, role);
    assert forall|i: int| 0 <= i < k implies (#[trigger] now[i]).id != role.id by {
        assert(now[i] == roles[i]);
    }
    lemma_place(now, role.id, k);
}

pub proof fn lemma_place_is_first(roles: Seq<RoleView>, id: Seq<char>)
    ensures
        place(roles, id) <= roles.len(),
        forall|i: int| 0 <= i < place(roles, id) ==> (#[trigger] roles[i]).id != id,
        place(roles, id) < roles.len() ==> roles[place(roles, id) as int].id == id,
    decreases roles.len(),
{
    if roles.len() > 0 && roles[0].id != id {
        let rest = roles.skip(1);
        lemma_place_is_first(rest, id);
        assert forall|i: int| 0 <= i < place(roles, id) implies (#[trigger] roles[i]).id != id by {
            if i > 0 {
                assert(roles[i] == rest[i - 1]);
            }
        }
    }
}

} // verus!

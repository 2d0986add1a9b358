//! The plugins this build ships, and what each says of itself: the slots it cannot do
//! without, those it uses where they are filled, and those it fills.
use crate::capabilities::WebPlugin;
use crate::data::{none_of, one_of, put, put_all, Dup};
use crate::text::lit;
use vstd::prelude::*;

verus! {

/// What a plugin says of itself.
#[derive(Debug, PartialEq, Eq)]
pub struct Manifest {
    pub name: String,
    /// Slots that have to be filled before it is mounted.
    pub inject: Vec<String>,
    /// Slots it uses where they are filled.
    pub uses: Vec<String>,
    /// Slots it fills.
    pub provides: Vec<String>,
    pub description: String,
}

/// What a [`Manifest`] holds.
#[verifier::ext_equal]
pub struct ManifestView {
    pub name: Seq<char>,
    pub inject: Seq<Seq<char>>,
    pub uses: Seq<Seq<char>>,
    pub provides: Seq<Seq<char>>,
    pub description: Seq<char>,
}

impl DeepView for Manifest {
    type V = ManifestView;

    open spec fn deep_view(&self) -> ManifestView {
        ManifestView {
            name: self.name.deep_view(),
            inject: self.inject.deep_view(),
            uses: self.uses.deep_view(),
            provides: self.provides.deep_view(),
            description: self.description.deep_view(),
        }
    }
}

impl Dup for Manifest {
    fn dup(&self) -> (r: Self) {
        Manifest {
            name: self.name.dup(),
            inject: self.inject.dup(),
            uses: self.uses.dup(),
            provides: self.provides.dup(),
            description: self.description.dup(),
        }
    }
}

impl Clone for Manifest {
    fn clone(&self) -> (r: Self)
        ensures
            r.deep_view() == self.deep_view(),
    {
        self.dup()
    }
}

/// A plugin of this build.
pub trait Plugin {
    spec fn described(&self) -> ManifestView;

    /// What the plugin says of itself.
    fn manifest(&self) -> (m: Manifest)
        ensures
            m.deep_view() == self.described(),
    ;
}

fn two(a: &str, b: &str) -> (out: Vec<String>)
    ensures
        out.deep_view() == seq![a@, b@],
{
    let mut out: Vec<String> = none_of();
    put(&mut out, lit(a));
    put(&mut out, lit(b));
    assert(out.deep_view() =~= seq![a@, b@]);
    out
}

fn three(a: &str, b: &str, c: &str) -> (out: Vec<String>)
    ensures
        out.deep_view() == seq![a@, b@, c@],
{
    let mut out: Vec<String> = none_of();
    put(&mut out, lit(a));
    put(&mut out, lit(b));
    put(&mut out, lit(c));
    assert(out.deep_view() =~= seq![a@, b@, c@]);
    out
}

fn four(a: &str, b: &str, c: &str, d: &str) -> (out: Vec<String>)
    ensures
        out.deep_view() == seq![a@, b@, c@, d@],
{
    let mut out: Vec<String> = none_of();
    put(&mut out, lit(a));
    put(&mut out, lit(b));
    put(&mut out, lit(c));
    put(&mut out, lit(d));
    assert(out.deep_view() =~= seq![a@, b@, c@, d@]);
    out
}

fn five(a: &str, b: &str, c: &str, d: &str, e: &str) -> (out: Vec<String>)
    ensures
        out.deep_view() == seq![a@, b@, c@, d@, e@],
{
    let mut out: Vec<String> = none_of();
    put(&mut out, lit(a));
    put(&mut out, lit(b));
    put(&mut out, lit(c));
    put(&mut out, lit(d));
    put(&mut out, lit(e));
    assert(out.deep_view() =~= seq![a@, b@, c@, d@, e@]);
    out
}

fn six(a: &str, b: &str, c: &str, d: &str, e: &str, f: &str) -> (out: Vec<String>)
    ensures
        out.deep_view() == seq![a@, b@, c@, d@, e@, f@],
{
    let mut out: Vec<String> = none_of();
    put(&mut out, lit(a));
    put(&mut out, lit(b));
    put(&mut out, lit(c));
    put(&mut out, lit(d));
    put(&mut out, lit(e));
    put(&mut out, lit(f));
    assert(out.deep_view() =~= seq![a@, b@, c@, d@, e@, f@]);
    out
}

/// The live tool catalog every tool plugin registers into.
#[derive(Clone, Copy, Debug, PartialEq, Eq, Structural)]
pub struct ToolsPlugin;

impl Plugin for ToolsPlugin {
    open spec fn described(&self) -> ManifestView {
        ManifestView {
            name: "tools"@,
            inject: Seq::empty(),
            uses: seq!["operations"@],
            provides: seq!["tools"@],
            description: "the live tool catalog every tool plugin registers into"@,
        }
    }

    fn manifest(&self) -> (m: Manifest) {
        Manifest {
            name: lit("tools"),
            inject: none_of(),
            uses: one_of(lit("operations")),
            provides: one_of(lit("tools")),
            description: lit("the live tool catalog every tool plugin registers into"),
        }
    }
}

/// Ordered prompt fragments, contributed by whoever owns the behaviour.
#[derive(Clone, Copy, Debug, PartialEq, Eq, Structural)]
pub struct SystemPromptPlugin;

impl Plugin for SystemPromptPlugin {
    open spec fn described(&self) -> ManifestView {
        ManifestView {
            name: "system-prompt"@,
            inject: Seq::empty(),
            uses: Seq::empty(),
            provides: seq!["system-prompt"@],
            description: "ordered prompt fragments, contributed by whoever owns the behaviour"@,
        }
    }

    fn manifest(&self) -> (m: Manifest) {
        Manifest {
            name: lit("system-prompt"),
            inject: none_of(),
            uses: none_of(),
            provides: one_of(lit("system-prompt")),
            description: lit("ordered prompt fragments, contributed by whoever owns the behaviour"),
        }
    }
}

/// The commands a person can run from a front end, each registered by the row it belongs to.
#[derive(Clone, Copy, Debug, PartialEq, Eq, Structural)]
pub struct CommandsPlugin;

impl Plugin for CommandsPlugin {
    open spec fn described(&self) -> ManifestView {
        ManifestView {
            name: "commands"@,
            inject: Seq::empty(),
            uses: Seq::empty(),
            provides: seq!["commands"@],
            description: "the commands a person can run from a front end, each registered by the row it belongs to"@,
        }
    }

    fn manifest(&self) -> (m: Manifest) {
        Manifest {
            name: lit("commands"),
            inject: none_of(),
            uses: none_of(),
            provides: one_of(lit("commands")),
            description: lit("the commands a person can run from a front end, each registered by the row it belongs to"),
        }
    }
}

/// Where each row describes itself, for `describe_self` to answer with.
#[derive(Clone, Copy, Debug, PartialEq, Eq, Structural)]
pub struct OperationsPlugin;

impl Plugin for OperationsPlugin {
    open spec fn described(&self) -> ManifestView {
        ManifestView {
            name: "operations"@,
            inject: Seq::empty(),
            uses: Seq::empty(),
            provides: seq!["operations"@],
            description: "where each row describes itself, for `describe_self` to answer with"@,
        }
    }

    fn manifest(&self) -> (m: Manifest) {
        Manifest {
            name: lit("operations"),
            inject: none_of(),
            uses: none_of(),
            provides: one_of(lit("operations")),
            description: lit("where each row describes itself, for `describe_self` to answer with"),
        }
    }
}

/// The live agent registry.
#[derive(Clone, Copy, Debug, PartialEq, Eq, Structural)]
pub struct AgentsPlugin;

impl Plugin for AgentsPlugin {
    open spec fn described(&self) -> ManifestView {
        ManifestView {
            name: "agents"@,
            inject: Seq::empty(),
            uses: Seq::empty(),
            provides: seq!["agents"@],
            description: "the live agent registry"@,
        }
    }

    fn manifest(&self) -> (m: Manifest) {
        Manifest {
            name: lit("agents"),
            inject: none_of(),
            uses: none_of(),
            provides: one_of(lit("agents")),
            description: lit("the live agent registry"),
        }
    }
}

/// Which session the front end's own agent gets, and whether to resume it.
#[derive(Clone, Copy, Debug, PartialEq, Eq, Structural)]
pub struct SessionPlugin;

impl Plugin for SessionPlugin {
    open spec fn described(&self) -> ManifestView {
        ManifestView {
            name: "session"@,
            inject: Seq::empty(),
            uses: Seq::empty(),
            provides: seq!["session-defaults"@],
            description: "which session the front end's own agent gets, and whether to resume it"@,
        }
    }

    fn manifest(&self) -> (m: Manifest) {
        Manifest {
            name: lit("session"),
            inject: none_of(),
            uses: none_of(),
            provides: one_of(lit("session-defaults")),
            description: lit("which session the front end's own agent gets, and whether to resume it"),
        }
    }
}

/// Incremental folds over the log, read by key.
#[derive(Clone, Copy, Debug, PartialEq, Eq, Structural)]
pub struct SessionProjectionsPlugin;

impl Plugin for SessionProjectionsPlugin {
    open spec fn described(&self) -> ManifestView {
        ManifestView {
            name: "session-projection"@,
            inject: Seq::empty(),
            uses: Seq::empty(),
            provides: seq!["session-projections"@],
            description: "incremental folds over the log, read by key"@,
        }
    }

    fn manifest(&self) -> (m: Manifest) {
        Manifest {
            name: lit("session-projection"),
            inject: none_of(),
            uses: none_of(),
            provides: one_of(lit("session-projections")),
            description: lit("incremental folds over the log, read by key"),
        }
    }
}

/// Append every committed event to <root>/<session-id>.jsonl.
#[derive(Clone, Copy, Debug, PartialEq, Eq, Structural)]
pub struct SessionPersistenceJsonlPlugin;

impl Plugin for SessionPersistenceJsonlPlugin {
    open spec fn described(&self) -> ManifestView {
        ManifestView {
            name: "session-persistence-jsonl"@,
            inject: Seq::empty(),
            uses: seq!["session-persistence"@, "operations"@, "agents"@],
            provides: seq!["session-persistence"@],
            description: "append every committed event to <root>/<session-id>.jsonl"@,
        }
    }

    fn manifest(&self) -> (m: Manifest) {
        Manifest {
            name: lit("session-persistence-jsonl"),
            inject: none_of(),
            uses: three("session-persistence", "operations", "agents"),
            provides: one_of(lit("session-persistence")),
            description: lit("append every committed event to <root>/<session-id>.jsonl"),
        }
    }
}

/// Name a session after its first prompt, with no model call.
#[derive(Clone, Copy, Debug, PartialEq, Eq, Structural)]
pub struct SessionTitlePlugin;

impl Plugin for SessionTitlePlugin {
    open spec fn described(&self) -> ManifestView {
        ManifestView {
            name: "session-title-first-prompt"@,
            inject: Seq::empty(),
            uses: Seq::empty(),
            provides: seq!["session-title"@],
            description: "name a session after its first prompt, with no model call"@,
        }
    }

    fn manifest(&self) -> (m: Manifest) {
        Manifest {
            name: lit("session-title-first-prompt"),
            inject: none_of(),
            uses: none_of(),
            provides: one_of(lit("session-title")),
            description: lit("name a session after its first prompt, with no model call"),
        }
    }
}

/// Name a session by asking the utility model about its first prompt.
#[derive(Clone, Copy, Debug, PartialEq, Eq, Structural)]
pub struct ModelTitlePlugin;

impl Plugin for ModelTitlePlugin {
    open spec fn described(&self) -> ManifestView {
        ManifestView {
            name: "session-title-model"@,
            inject: Seq::empty(),
            uses: seq!["llm-utility"@],
            provides: seq!["session-title"@],
            description: "name a session by asking the utility model about its first prompt"@,
        }
    }

    fn manifest(&self) -> (m: Manifest) {
        Manifest {
            name: lit("session-title-model"),
            inject: none_of(),
            uses: one_of(lit("llm-utility")),
            provides: one_of(lit("session-title")),
            description: lit("name a session by asking the utility model about its first prompt"),
        }
    }
}

/// When the first prompt lands, ask for a title in the background and log it.
#[derive(Clone, Copy, Debug, PartialEq, Eq, Structural)]
pub struct TitleOnFirstPromptPlugin;

impl Plugin for TitleOnFirstPromptPlugin {
    open spec fn described(&self) -> ManifestView {
        ManifestView {
            name: "session-title-on-first-prompt"@,
            inject: Seq::empty(),
            uses: seq!["session-title"@, "agents"@],
            provides: Seq::empty(),
            description: "when the first prompt lands, ask for a title in the background and log it"@,
        }
    }

    fn manifest(&self) -> (m: Manifest) {
        Manifest {
            name: lit("session-title-on-first-prompt"),
            inject: none_of(),
            uses: two("session-title", "agents"),
            provides: none_of(),
            description: lit("when the first prompt lands, ask for a title in the background and log it"),
        }
    }
}

/// OpenAI-compatible streaming adapter (DeepSeek, GLM, vLLM, gateways).
#[derive(Clone, Copy, Debug, PartialEq, Eq, Structural)]
pub struct OpenAiCompatPlugin;

impl Plugin for OpenAiCompatPlugin {
    open spec fn described(&self) -> ManifestView {
        ManifestView {
            name: "llm-openai-compat"@,
            inject: Seq::empty(),
            uses: seq!["operations"@],
            provides: seq!["llm"@],
            description: "OpenAI-compatible streaming adapter (DeepSeek, GLM, vLLM, gateways)"@,
        }
    }

    fn manifest(&self) -> (m: Manifest) {
        Manifest {
            name: lit("llm-openai-compat"),
            inject: none_of(),
            uses: one_of(lit("operations")),
            provides: one_of(lit("llm")),
            description: lit("OpenAI-compatible streaming adapter (DeepSeek, GLM, vLLM, gateways)"),
        }
    }
}

/// A cheaper OpenAI-compatible model for side calls: titles, summaries, suggestions.
#[derive(Clone, Copy, Debug, PartialEq, Eq, Structural)]
pub struct LlmUtilityOpenAiCompatPlugin;

impl Plugin for LlmUtilityOpenAiCompatPlugin {
    open spec fn described(&self) -> ManifestView {
        ManifestView {
            name: "llm-utility-openai-compat"@,
            inject: Seq::empty(),
            uses: Seq::empty(),
            provides: seq!["llm-utility"@],
            description: "a cheaper OpenAI-compatible model for side calls: titles, summaries, suggestions"@,
        }
    }

    fn manifest(&self) -> (m: Manifest) {
        Manifest {
            name: lit("llm-utility-openai-compat"),
            inject: none_of(),
            uses: none_of(),
            provides: one_of(lit("llm-utility")),
            description: lit("a cheaper OpenAI-compatible model for side calls: titles, summaries, suggestions"),
        }
    }
}

/// Scripted side-call model — the utility seam with no network.
#[derive(Clone, Copy, Debug, PartialEq, Eq, Structural)]
pub struct LlmUtilityReplayPlugin;

impl Plugin for LlmUtilityReplayPlugin {
    open spec fn described(&self) -> ManifestView {
        ManifestView {
            name: "llm-utility-replay"@,
            inject: Seq::empty(),
            uses: Seq::empty(),
            provides: seq!["llm-utility"@],
            description: "scripted side-call model — the utility seam with no network"@,
        }
    }

    fn manifest(&self) -> (m: Manifest) {
        Manifest {
            name: lit("llm-utility-replay"),
            inject: none_of(),
            uses: none_of(),
            provides: one_of(lit("llm-utility")),
            description: lit("scripted side-call model — the utility seam with no network"),
        }
    }
}

/// Scripted model responses — the same seam with no network.
#[derive(Clone, Copy, Debug, PartialEq, Eq, Structural)]
pub struct ReplayPlugin;

impl Plugin for ReplayPlugin {
    open spec fn described(&self) -> ManifestView {
        ManifestView {
            name: "llm-replay"@,
            inject: Seq::empty(),
            uses: seq!["operations"@],
            provides: seq!["llm"@],
            description: "scripted model responses — the same seam with no network"@,
        }
    }

    fn manifest(&self) -> (m: Manifest) {
        Manifest {
            name: lit("llm-replay"),
            inject: none_of(),
            uses: one_of(lit("operations")),
            provides: one_of(lit("llm")),
            description: lit("scripted model responses — the same seam with no network"),
        }
    }
}

/// The model AtomCode is already configured to use (~/.atomcode/config.toml).
#[derive(Clone, Copy, Debug, PartialEq, Eq, Structural)]
pub struct AtomcodeConfigPlugin;

impl Plugin for AtomcodeConfigPlugin {
    open spec fn described(&self) -> ManifestView {
        ManifestView {
            name: "llm-atomcode-config"@,
            inject: Seq::empty(),
            uses: seq!["operations"@],
            provides: seq!["llm"@],
            description: "the model AtomCode is already configured to use (~/.atomcode/config.toml)"@,
        }
    }

    fn manifest(&self) -> (m: Manifest) {
        Manifest {
            name: lit("llm-atomcode-config"),
            inject: none_of(),
            uses: one_of(lit("operations")),
            provides: one_of(lit("llm")),
            description: lit("the model AtomCode is already configured to use (~/.atomcode/config.toml)"),
        }
    }
}

/// Read/write/edit/list against the local disk (the alternative to tool-fs-world).
#[derive(Clone, Copy, Debug, PartialEq, Eq, Structural)]
pub struct FsToolsPlugin;

impl Plugin for FsToolsPlugin {
    open spec fn described(&self) -> ManifestView {
        ManifestView {
            name: "tool-fs"@,
            inject: seq!["tools"@],
            uses: Seq::empty(),
            provides: Seq::empty(),
            description: "read/write/edit/list against the local disk (the alternative to tool-fs-world)"@,
        }
    }

    fn manifest(&self) -> (m: Manifest) {
        Manifest {
            name: lit("tool-fs"),
            inject: one_of(lit("tools")),
            uses: none_of(),
            provides: none_of(),
            description: lit("read/write/edit/list against the local disk (the alternative to tool-fs-world)"),
        }
    }
}

/// Shell execution.
#[derive(Clone, Copy, Debug, PartialEq, Eq, Structural)]
pub struct BashToolPlugin;

impl Plugin for BashToolPlugin {
    open spec fn described(&self) -> ManifestView {
        ManifestView {
            name: "tool-bash"@,
            inject: seq!["tools"@],
            uses: Seq::empty(),
            provides: Seq::empty(),
            description: "shell execution"@,
        }
    }

    fn manifest(&self) -> (m: Manifest) {
        Manifest {
            name: lit("tool-bash"),
            inject: one_of(lit("tools")),
            uses: none_of(),
            provides: none_of(),
            description: lit("shell execution"),
        }
    }
}

/// Structural (AST) search.
#[derive(Clone, Copy, Debug, PartialEq, Eq, Structural)]
pub struct AstGrepPlugin;

impl Plugin for AstGrepPlugin {
    open spec fn described(&self) -> ManifestView {
        ManifestView {
            name: "tool-ast-grep"@,
            inject: seq!["tools"@],
            uses: Seq::empty(),
            provides: Seq::empty(),
            description: "structural (AST) search"@,
        }
    }

    fn manifest(&self) -> (m: Manifest) {
        Manifest {
            name: lit("tool-ast-grep"),
            inject: one_of(lit("tools")),
            uses: none_of(),
            provides: none_of(),
            description: lit("structural (AST) search"),
        }
    }
}

/// Grep and glob over the working directory.
#[derive(Clone, Copy, Debug, PartialEq, Eq, Structural)]
pub struct SearchToolsPlugin;

impl Plugin for SearchToolsPlugin {
    open spec fn described(&self) -> ManifestView {
        ManifestView {
            name: "tool-search"@,
            inject: seq!["tools"@],
            uses: Seq::empty(),
            provides: Seq::empty(),
            description: "grep and glob over the working directory"@,
        }
    }

    fn manifest(&self) -> (m: Manifest) {
        Manifest {
            name: lit("tool-search"),
            inject: one_of(lit("tools")),
            uses: none_of(),
            provides: none_of(),
            description: lit("grep and glob over the working directory"),
        }
    }
}

/// Overlap the tool calls that declare themselves safe to overlap.
#[derive(Clone, Copy, Debug, PartialEq, Eq, Structural)]
pub struct ParallelToolsPlugin;

impl Plugin for ParallelToolsPlugin {
    open spec fn described(&self) -> ManifestView {
        ManifestView {
            name: "tool-exec-parallel"@,
            inject: seq!["tools"@],
            uses: Seq::empty(),
            provides: Seq::empty(),
            description: "overlap the tool calls that declare themselves safe to overlap"@,
        }
    }

    fn manifest(&self) -> (m: Manifest) {
        Manifest {
            name: lit("tool-exec-parallel"),
            inject: one_of(lit("tools")),
            uses: none_of(),
            provides: none_of(),
            description: lit("overlap the tool calls that declare themselves safe to overlap"),
        }
    }
}

/// Tell the model how many skills are installed and how to load one.
#[derive(Clone, Copy, Debug, PartialEq, Eq, Structural)]
pub struct SkillsAdvertPlugin;

impl Plugin for SkillsAdvertPlugin {
    open spec fn described(&self) -> ManifestView {
        ManifestView {
            name: "skills-advert"@,
            inject: Seq::empty(),
            uses: seq!["skills"@, "system-prompt"@],
            provides: Seq::empty(),
            description: "tell the model how many skills are installed and how to load one"@,
        }
    }

    fn manifest(&self) -> (m: Manifest) {
        Manifest {
            name: lit("skills-advert"),
            inject: none_of(),
            uses: two("skills", "system-prompt"),
            provides: none_of(),
            description: lit("tell the model how many skills are installed and how to load one"),
        }
    }
}

/// Markdown skill catalog + use_skill / list_skills.
#[derive(Clone, Copy, Debug, PartialEq, Eq, Structural)]
pub struct SkillsPlugin;

impl Plugin for SkillsPlugin {
    open spec fn described(&self) -> ManifestView {
        ManifestView {
            name: "skills"@,
            inject: seq!["tools"@],
            uses: seq!["skills"@, "operations"@, "commands"@],
            provides: seq!["skills"@],
            description: "markdown skill catalog + use_skill / list_skills"@,
        }
    }

    fn manifest(&self) -> (m: Manifest) {
        Manifest {
            name: lit("skills"),
            inject: one_of(lit("tools")),
            uses: three("skills", "operations", "commands"),
            provides: one_of(lit("skills")),
            description: lit("markdown skill catalog + use_skill / list_skills"),
        }
    }
}

/// Stateless tree-sitter symbol tools (the symbol layer).
#[derive(Clone, Copy, Debug, PartialEq, Eq, Structural)]
pub struct CodeIntelPlugin;

impl Plugin for CodeIntelPlugin {
    open spec fn described(&self) -> ManifestView {
        ManifestView {
            name: "codeintel"@,
            inject: seq!["tools"@],
            uses: Seq::empty(),
            provides: Seq::empty(),
            description: "stateless tree-sitter symbol tools (the symbol layer)"@,
        }
    }

    fn manifest(&self) -> (m: Manifest) {
        Manifest {
            name: lit("codeintel"),
            inject: one_of(lit("tools")),
            uses: none_of(),
            provides: none_of(),
            description: lit("stateless tree-sitter symbol tools (the symbol layer)"),
        }
    }
}

/// Cross-file call graph: references, call chains, blast radius.
#[derive(Clone, Copy, Debug, PartialEq, Eq, Structural)]
pub struct CodeGraphPlugin;

impl Plugin for CodeGraphPlugin {
    open spec fn described(&self) -> ManifestView {
        ManifestView {
            name: "code-graph"@,
            inject: seq!["tools"@],
            uses: seq!["code-index"@],
            provides: seq!["code-index"@],
            description: "cross-file call graph: references, call chains, blast radius"@,
        }
    }

    fn manifest(&self) -> (m: Manifest) {
        Manifest {
            name: lit("code-graph"),
            inject: one_of(lit("tools")),
            uses: one_of(lit("code-index")),
            provides: one_of(lit("code-index")),
            description: lit("cross-file call graph: references, call chains, blast radius"),
        }
    }
}

/// What web search says of itself, with a key of its own or without one.
pub open spec fn web_manifest(keyed: bool) -> ManifestView {
    ManifestView {
        name: if keyed {
            "tool-web-keyed"@
        } else {
            "tool-web"@
        },
        inject: seq!["tools"@],
        uses: Seq::empty(),
        provides: Seq::empty(),
        description: "web search and fetch"@,
    }
}

impl Plugin for WebPlugin {
    open spec fn described(&self) -> ManifestView {
        web_manifest(self.key() is Some)
    }

    fn manifest(&self) -> (m: Manifest) {
        Manifest {
            name: if self.is_keyed() {
                lit("tool-web-keyed")
            } else {
                lit("tool-web")
            },
            inject: one_of(lit("tools")),
            uses: none_of(),
            provides: none_of(),
            description: lit("web search and fetch"),
        }
    }
}

/// The `code_review` tool: a read-only auditor over the current changes, running its own rounds on the host's provider.
#[derive(Clone, Copy, Debug, PartialEq, Eq, Structural)]
pub struct ReviewToolPlugin;

impl Plugin for ReviewToolPlugin {
    open spec fn described(&self) -> ManifestView {
        ManifestView {
            name: "tool-code-review"@,
            inject: seq!["tools"@, "llm"@],
            uses: seq!["commands"@, "fs"@],
            provides: Seq::empty(),
            description: "the `code_review` tool: a read-only auditor over the current changes, running its own rounds on the host's provider"@,
        }
    }

    fn manifest(&self) -> (m: Manifest) {
        Manifest {
            name: lit("tool-code-review"),
            inject: two("tools", "llm"),
            uses: two("commands", "fs"),
            provides: none_of(),
            description: lit("the `code_review` tool: a read-only auditor over the current changes, running its own rounds on the host's provider"),
        }
    }
}

/// Inject memory.md on the first turn, and let the agent write it back.
#[derive(Clone, Copy, Debug, PartialEq, Eq, Structural)]
pub struct MemoryPlugin;

impl Plugin for MemoryPlugin {
    open spec fn described(&self) -> ManifestView {
        ManifestView {
            name: "memory"@,
            inject: Seq::empty(),
            uses: seq!["tools"@, "operations"@, "commands"@],
            provides: Seq::empty(),
            description: "inject memory.md on the first turn, and let the agent write it back"@,
        }
    }

    fn manifest(&self) -> (m: Manifest) {
        Manifest {
            name: lit("memory"),
            inject: none_of(),
            uses: three("tools", "operations", "commands"),
            provides: none_of(),
            description: lit("inject memory.md on the first turn, and let the agent write it back"),
        }
    }
}

/// Connect configured MCP servers and mount their tools.
#[derive(Clone, Copy, Debug, PartialEq, Eq, Structural)]
pub struct McpPlugin;

impl Plugin for McpPlugin {
    open spec fn described(&self) -> ManifestView {
        ManifestView {
            name: "mcp"@,
            inject: seq!["tools"@],
            uses: seq!["mcp"@, "operations"@],
            provides: seq!["mcp"@],
            description: "connect configured MCP servers and mount their tools"@,
        }
    }

    fn manifest(&self) -> (m: Manifest) {
        Manifest {
            name: lit("mcp"),
            inject: one_of(lit("tools")),
            uses: two("mcp", "operations"),
            provides: one_of(lit("mcp")),
            description: lit("connect configured MCP servers and mount their tools"),
        }
    }
}

/// The `report_finding` tool and the sink that collects what it reports.
#[derive(Clone, Copy, Debug, PartialEq, Eq, Structural)]
pub struct FindingsPlugin;

impl Plugin for FindingsPlugin {
    open spec fn described(&self) -> ManifestView {
        ManifestView {
            name: "tool-report-finding"@,
            inject: seq!["tools"@],
            uses: Seq::empty(),
            provides: seq!["findings"@],
            description: "the `report_finding` tool and the sink that collects what it reports"@,
        }
    }

    fn manifest(&self) -> (m: Manifest) {
        Manifest {
            name: lit("tool-report-finding"),
            inject: one_of(lit("tools")),
            uses: none_of(),
            provides: one_of(lit("findings")),
            description: lit("the `report_finding` tool and the sink that collects what it reports"),
        }
    }
}

/// Run a child agent in an isolated realm, with a reduced tool set.
#[derive(Clone, Copy, Debug, PartialEq, Eq, Structural)]
pub struct SubagentPlugin;

impl Plugin for SubagentPlugin {
    open spec fn described(&self) -> ManifestView {
        ManifestView {
            name: "subagent-in-process"@,
            inject: seq!["tools"@, "llm"@, "agents"@],
            uses: seq!["subagents"@, "agent-loop"@, "system-prompt"@],
            provides: seq!["subagents"@],
            description: "run a child agent in an isolated realm, with a reduced tool set"@,
        }
    }

    fn manifest(&self) -> (m: Manifest) {
        Manifest {
            name: lit("subagent-in-process"),
            inject: three("tools", "llm", "agents"),
            uses: three("subagents", "agent-loop", "system-prompt"),
            provides: one_of(lit("subagents")),
            description: lit("run a child agent in an isolated realm, with a reduced tool set"),
        }
    }
}

/// Tells the model that delegation can pick a model, and lists them when asked.
#[derive(Clone, Copy, Debug, PartialEq, Eq, Structural)]
pub struct ModelCatalogPlugin;

impl Plugin for ModelCatalogPlugin {
    open spec fn described(&self) -> ManifestView {
        ManifestView {
            name: "model-catalog"@,
            inject: seq!["system-prompt"@],
            uses: seq!["models"@, "operations"@],
            provides: Seq::empty(),
            description: "tells the model that delegation can pick a model, and lists them when asked"@,
        }
    }

    fn manifest(&self) -> (m: Manifest) {
        Manifest {
            name: lit("model-catalog"),
            inject: one_of(lit("system-prompt")),
            uses: two("models", "operations"),
            provides: none_of(),
            description: lit("tells the model that delegation can pick a model, and lists them when asked"),
        }
    }
}

/// The `team` tool: named child agents with roles that stay, report back, and can be told more.
#[derive(Clone, Copy, Debug, PartialEq, Eq, Structural)]
pub struct TeamPlugin;

impl Plugin for TeamPlugin {
    open spec fn described(&self) -> ManifestView {
        ManifestView {
            name: "team-in-process"@,
            inject: seq!["tools"@, "agents"@, "agent-loop"@, "commands"@],
            uses: seq!["llm-utility"@, "system-prompt"@, "shell"@, "fs"@],
            provides: Seq::empty(),
            description: "the `team` tool: named child agents with roles that stay, report back, and can be told more"@,
        }
    }

    fn manifest(&self) -> (m: Manifest) {
        Manifest {
            name: lit("team-in-process"),
            inject: four("tools", "agents", "agent-loop", "commands"),
            uses: four("llm-utility", "system-prompt", "shell", "fs"),
            provides: none_of(),
            description: lit("the `team` tool: named child agents with roles that stay, report back, and can be told more"),
        }
    }
}

/// `ask_user`: put a choice to the person and wait, through the same seam approvals use.
#[derive(Clone, Copy, Debug, PartialEq, Eq, Structural)]
pub struct AskPlugin;

impl Plugin for AskPlugin {
    open spec fn described(&self) -> ManifestView {
        ManifestView {
            name: "tool-ask"@,
            inject: seq!["tools"@],
            uses: seq!["user-questions"@],
            provides: Seq::empty(),
            description: "`ask_user`: put a choice to the person and wait, through the same seam approvals use"@,
        }
    }

    fn manifest(&self) -> (m: Manifest) {
        Manifest {
            name: lit("tool-ask"),
            inject: one_of(lit("tools")),
            uses: one_of(lit("user-questions")),
            provides: none_of(),
            description: lit("`ask_user`: put a choice to the person and wait, through the same seam approvals use"),
        }
    }
}

/// Search this project's past sessions through the persistence seam.
#[derive(Clone, Copy, Debug, PartialEq, Eq, Structural)]
pub struct RecallPlugin;

impl Plugin for RecallPlugin {
    open spec fn described(&self) -> ManifestView {
        ManifestView {
            name: "recall"@,
            inject: seq!["tools"@],
            uses: seq!["session-persistence"@, "operations"@],
            provides: Seq::empty(),
            description: "search this project's past sessions through the persistence seam"@,
        }
    }

    fn manifest(&self) -> (m: Manifest) {
        Manifest {
            name: lit("recall"),
            inject: one_of(lit("tools")),
            uses: two("session-persistence", "operations"),
            provides: none_of(),
            description: lit("search this project's past sessions through the persistence seam"),
        }
    }
}

/// Show files and URLs on this machine's desktop.
#[derive(Clone, Copy, Debug, PartialEq, Eq, Structural)]
pub struct OpenerLocalPlugin;

impl Plugin for OpenerLocalPlugin {
    open spec fn described(&self) -> ManifestView {
        ManifestView {
            name: "opener-local"@,
            inject: Seq::empty(),
            uses: Seq::empty(),
            provides: seq!["opener"@],
            description: "show files and URLs on this machine's desktop"@,
        }
    }

    fn manifest(&self) -> (m: Manifest) {
        Manifest {
            name: lit("opener-local"),
            inject: none_of(),
            uses: none_of(),
            provides: one_of(lit("opener")),
            description: lit("show files and URLs on this machine's desktop"),
        }
    }
}

/// Open_file, presented through whatever front end has the person.
#[derive(Clone, Copy, Debug, PartialEq, Eq, Structural)]
pub struct OpenFileToolPlugin;

impl Plugin for OpenFileToolPlugin {
    open spec fn described(&self) -> ManifestView {
        ManifestView {
            name: "tool-open-file"@,
            inject: seq!["tools"@, "opener"@],
            uses: Seq::empty(),
            provides: Seq::empty(),
            description: "open_file, presented through whatever front end has the person"@,
        }
    }

    fn manifest(&self) -> (m: Manifest) {
        Manifest {
            name: lit("tool-open-file"),
            inject: two("tools", "opener"),
            uses: none_of(),
            provides: none_of(),
            description: lit("open_file, presented through whatever front end has the person"),
        }
    }
}

/// The coding specialization's system prompt.
#[derive(Clone, Copy, Debug, PartialEq, Eq, Structural)]
pub struct CodingPersonaPlugin;

impl Plugin for CodingPersonaPlugin {
    open spec fn described(&self) -> ManifestView {
        ManifestView {
            name: "persona-coding"@,
            inject: seq!["system-prompt"@],
            uses: Seq::empty(),
            provides: Seq::empty(),
            description: "the coding specialization's system prompt"@,
        }
    }

    fn manifest(&self) -> (m: Manifest) {
        Manifest {
            name: lit("persona-coding"),
            inject: one_of(lit("system-prompt")),
            uses: none_of(),
            provides: none_of(),
            description: lit("the coding specialization's system prompt"),
        }
    }
}

/// The read-only auditor prompt from atomcode-review.
#[derive(Clone, Copy, Debug, PartialEq, Eq, Structural)]
pub struct ReviewPersonaPlugin;

impl Plugin for ReviewPersonaPlugin {
    open spec fn described(&self) -> ManifestView {
        ManifestView {
            name: "persona-review"@,
            inject: seq!["system-prompt"@],
            uses: Seq::empty(),
            provides: Seq::empty(),
            description: "the read-only auditor prompt from atomcode-review"@,
        }
    }

    fn manifest(&self) -> (m: Manifest) {
        Manifest {
            name: lit("persona-review"),
            inject: one_of(lit("system-prompt")),
            uses: none_of(),
            provides: none_of(),
            description: lit("the read-only auditor prompt from atomcode-review"),
        }
    }
}

/// A read-only security auditor that must establish reachability.
#[derive(Clone, Copy, Debug, PartialEq, Eq, Structural)]
pub struct SecurityPersonaPlugin;

impl Plugin for SecurityPersonaPlugin {
    open spec fn described(&self) -> ManifestView {
        ManifestView {
            name: "persona-security"@,
            inject: seq!["system-prompt"@],
            uses: Seq::empty(),
            provides: Seq::empty(),
            description: "a read-only security auditor that must establish reachability"@,
        }
    }

    fn manifest(&self) -> (m: Manifest) {
        Manifest {
            name: lit("persona-security"),
            inject: one_of(lit("system-prompt")),
            uses: none_of(),
            provides: none_of(),
            description: lit("a read-only security auditor that must establish reachability"),
        }
    }
}

/// Tell the model what it is assembled from, from the live tree.
#[derive(Clone, Copy, Debug, PartialEq, Eq, Structural)]
pub struct SelfKnowledgePlugin;

impl Plugin for SelfKnowledgePlugin {
    open spec fn described(&self) -> ManifestView {
        ManifestView {
            name: "self-knowledge"@,
            inject: seq!["system-prompt"@],
            uses: seq!["tools"@, "sessions"@, "session-persistence"@, "operations"@],
            provides: Seq::empty(),
            description: "tell the model what it is assembled from, from the live tree"@,
        }
    }

    fn manifest(&self) -> (m: Manifest) {
        Manifest {
            name: lit("self-knowledge"),
            inject: one_of(lit("system-prompt")),
            uses: four("tools", "sessions", "session-persistence", "operations"),
            provides: none_of(),
            description: lit("tell the model what it is assembled from, from the live tree"),
        }
    }
}

/// Read a repository's own instruction files into the prompt: `AGENTS.md`, `.atomcode.md`
/// and the like.
#[derive(Clone, Copy, Debug, PartialEq, Eq, Structural)]
pub struct ProjectInstructionsPlugin;

impl Plugin for ProjectInstructionsPlugin {
    open spec fn described(&self) -> ManifestView {
        ManifestView {
            name: "project-instructions"@,
            inject: seq!["system-prompt"@],
            uses: Seq::empty(),
            provides: Seq::empty(),
            description: "read AGENTS.md / .atomcode.md and a repository's other instruction files into the prompt"@,
        }
    }

    fn manifest(&self) -> (m: Manifest) {
        Manifest {
            name: lit("project-instructions"),
            inject: one_of(lit("system-prompt")),
            uses: none_of(),
            provides: none_of(),
            description: lit("read AGENTS.md / .atomcode.md and a repository's other instruction files into the prompt"),
        }
    }
}

/// The default turn driver: assemble from the log, request, execute tools, repeat.
#[derive(Clone, Copy, Debug, PartialEq, Eq, Structural)]
pub struct AgentLoopPlugin;

impl Plugin for AgentLoopPlugin {
    open spec fn described(&self) -> ManifestView {
        ManifestView {
            name: "agent-loop"@,
            inject: seq!["llm"@, "tools"@],
            uses: seq!["system-prompt"@, "session-projections"@, "tool-driver"@],
            provides: seq!["agent-loop"@],
            description: "the default turn driver: assemble from the log, request, execute tools, repeat"@,
        }
    }

    fn manifest(&self) -> (m: Manifest) {
        Manifest {
            name: lit("agent-loop"),
            inject: two("llm", "tools"),
            uses: three("system-prompt", "session-projections", "tool-driver"),
            provides: one_of(lit("agent-loop")),
            description: lit("the default turn driver: assemble from the log, request, execute tools, repeat"),
        }
    }
}

/// Drive this harness through the AgentHandle protocol the shipped UIs speak.
#[derive(Clone, Copy, Debug, PartialEq, Eq, Structural)]
pub struct AgentHandlePlugin;

impl Plugin for AgentHandlePlugin {
    open spec fn described(&self) -> ManifestView {
        ManifestView {
            name: "ui-handle"@,
            inject: seq!["agents"@, "agent-loop"@],
            uses: seq!["tools"@, "llm"@, "compaction"@, "approval"@, "session-defaults"@, "grants"@],
            provides: seq!["ui"@, "agent-handle"@, "user-questions"@, "approval"@, "tool-driver"@],
            description: "drive this harness through the AgentHandle protocol the shipped UIs speak"@,
        }
    }

    fn manifest(&self) -> (m: Manifest) {
        Manifest {
            name: lit("ui-handle"),
            inject: two("agents", "agent-loop"),
            uses: six("tools", "llm", "compaction", "approval", "session-defaults", "grants"),
            provides: five("ui", "agent-handle", "user-questions", "approval", "tool-driver"),
            description: lit("drive this harness through the AgentHandle protocol the shipped UIs speak"),
        }
    }
}

/// Normalize model-produced tool arguments before anything inspects them.
#[derive(Clone, Copy, Debug, PartialEq, Eq, Structural)]
pub struct RepairArgsPlugin;

impl Plugin for RepairArgsPlugin {
    open spec fn described(&self) -> ManifestView {
        ManifestView {
            name: "tool-args-repair"@,
            inject: Seq::empty(),
            uses: Seq::empty(),
            provides: Seq::empty(),
            description: "normalize model-produced tool arguments before anything inspects them"@,
        }
    }

    fn manifest(&self) -> (m: Manifest) {
        Manifest {
            name: lit("tool-args-repair"),
            inject: none_of(),
            uses: none_of(),
            provides: none_of(),
            description: lit("normalize model-produced tool arguments before anything inspects them"),
        }
    }
}

/// Gate tool calls on their declared risk.
#[derive(Clone, Copy, Debug, PartialEq, Eq, Structural)]
pub struct ApprovalPlugin;

impl Plugin for ApprovalPlugin {
    open spec fn described(&self) -> ManifestView {
        ManifestView {
            name: "approval"@,
            inject: seq!["tools"@],
            uses: seq!["approval"@],
            provides: seq!["approval"@],
            description: "gate tool calls on their declared risk"@,
        }
    }

    fn manifest(&self) -> (m: Manifest) {
        Manifest {
            name: lit("approval"),
            inject: one_of(lit("tools")),
            uses: one_of(lit("approval")),
            provides: one_of(lit("approval")),
            description: lit("gate tool calls on their declared risk"),
        }
    }
}

/// Bound a single tool result so one runaway output cannot fill the window.
#[derive(Clone, Copy, Debug, PartialEq, Eq, Structural)]
pub struct ResultCapPlugin;

impl Plugin for ResultCapPlugin {
    open spec fn described(&self) -> ManifestView {
        ManifestView {
            name: "tool-result-cap"@,
            inject: Seq::empty(),
            uses: Seq::empty(),
            provides: Seq::empty(),
            description: "bound a single tool result so one runaway output cannot fill the window"@,
        }
    }

    fn manifest(&self) -> (m: Manifest) {
        Manifest {
            name: lit("tool-result-cap"),
            inject: none_of(),
            uses: none_of(),
            provides: none_of(),
            description: lit("bound a single tool result so one runaway output cannot fill the window"),
        }
    }
}

/// Refuse outright what a delegated agent may never do: a shell, delegating, sensitive paths, writes outside its lane.
#[derive(Clone, Copy, Debug, PartialEq, Eq, Structural)]
pub struct DelegationBoundsPlugin;

impl Plugin for DelegationBoundsPlugin {
    open spec fn described(&self) -> ManifestView {
        ManifestView {
            name: "delegation-bounds"@,
            inject: seq!["tools"@],
            uses: seq!["agents"@],
            provides: Seq::empty(),
            description: "refuse outright what a delegated agent may never do: a shell, delegating, sensitive paths, writes outside its lane"@,
        }
    }

    fn manifest(&self) -> (m: Manifest) {
        Manifest {
            name: lit("delegation-bounds"),
            inject: one_of(lit("tools")),
            uses: one_of(lit("agents")),
            provides: none_of(),
            description: lit("refuse outright what a delegated agent may never do: a shell, delegating, sensitive paths, writes outside its lane"),
        }
    }
}

/// Ask before a read-only tool touches credentials, keys or `.env` — through the approval seam.
#[derive(Clone, Copy, Debug, PartialEq, Eq, Structural)]
pub struct SensitivePathsPlugin;

impl Plugin for SensitivePathsPlugin {
    open spec fn described(&self) -> ManifestView {
        ManifestView {
            name: "sensitive-paths"@,
            inject: seq!["tools"@],
            uses: seq!["approval"@],
            provides: Seq::empty(),
            description: "ask before a read-only tool touches credentials, keys or `.env` — through the approval seam"@,
        }
    }

    fn manifest(&self) -> (m: Manifest) {
        Manifest {
            name: lit("sensitive-paths"),
            inject: one_of(lit("tools")),
            uses: one_of(lit("approval")),
            provides: none_of(),
            description: lit("ask before a read-only tool touches credentials, keys or `.env` — through the approval seam"),
        }
    }
}

/// An open_file target inside the workspace needs no approval.
#[derive(Clone, Copy, Debug, PartialEq, Eq, Structural)]
pub struct OpenFileWorkspacePlugin;

impl Plugin for OpenFileWorkspacePlugin {
    open spec fn described(&self) -> ManifestView {
        ManifestView {
            name: "tool-open-file-workspace"@,
            inject: Seq::empty(),
            uses: Seq::empty(),
            provides: Seq::empty(),
            description: "an open_file target inside the workspace needs no approval"@,
        }
    }

    fn manifest(&self) -> (m: Manifest) {
        Manifest {
            name: lit("tool-open-file-workspace"),
            inject: none_of(),
            uses: none_of(),
            provides: none_of(),
            description: lit("an open_file target inside the workspace needs no approval"),
        }
    }
}

/// An oversized tool result is saved whole and shown head + tail.
#[derive(Clone, Copy, Debug, PartialEq, Eq, Structural)]
pub struct OutputArtifactPlugin;

impl Plugin for OutputArtifactPlugin {
    open spec fn described(&self) -> ManifestView {
        ManifestView {
            name: "tool-output-artifact"@,
            inject: Seq::empty(),
            uses: seq!["tools"@],
            provides: Seq::empty(),
            description: "an oversized tool result is saved whole and shown head + tail"@,
        }
    }

    fn manifest(&self) -> (m: Manifest) {
        Manifest {
            name: lit("tool-output-artifact"),
            inject: none_of(),
            uses: one_of(lit("tools")),
            provides: none_of(),
            description: lit("an oversized tool result is saved whole and shown head + tail"),
        }
    }
}

/// The model-facing task list.
#[derive(Clone, Copy, Debug, PartialEq, Eq, Structural)]
pub struct TodoPlugin;

impl Plugin for TodoPlugin {
    open spec fn described(&self) -> ManifestView {
        ManifestView {
            name: "tool-todo"@,
            inject: seq!["tools"@],
            uses: Seq::empty(),
            provides: Seq::empty(),
            description: "the model-facing task list"@,
        }
    }

    fn manifest(&self) -> (m: Manifest) {
        Manifest {
            name: lit("tool-todo"),
            inject: one_of(lit("tools")),
            uses: none_of(),
            provides: none_of(),
            description: lit("the model-facing task list"),
        }
    }
}

/// Declarative allow/deny rules over tool calls.
#[derive(Clone, Copy, Debug, PartialEq, Eq, Structural)]
pub struct PermissionsPlugin;

impl Plugin for PermissionsPlugin {
    open spec fn described(&self) -> ManifestView {
        ManifestView {
            name: "permissions"@,
            inject: seq!["tools"@],
            uses: Seq::empty(),
            provides: Seq::empty(),
            description: "declarative allow/deny rules over tool calls"@,
        }
    }

    fn manifest(&self) -> (m: Manifest) {
        Manifest {
            name: lit("permissions"),
            inject: one_of(lit("tools")),
            uses: none_of(),
            provides: none_of(),
            description: lit("declarative allow/deny rules over tool calls"),
        }
    }
}

/// Read-only exploration: refuse every tool that can change something.
#[derive(Clone, Copy, Debug, PartialEq, Eq, Structural)]
pub struct PlanModePlugin;

impl Plugin for PlanModePlugin {
    open spec fn described(&self) -> ManifestView {
        ManifestView {
            name: "plan-mode"@,
            inject: seq!["tools"@],
            uses: Seq::empty(),
            provides: Seq::empty(),
            description: "read-only exploration: refuse every tool that can change something"@,
        }
    }

    fn manifest(&self) -> (m: Manifest) {
        Manifest {
            name: lit("plan-mode"),
            inject: one_of(lit("tools")),
            uses: none_of(),
            provides: none_of(),
            description: lit("read-only exploration: refuse every tool that can change something"),
        }
    }
}

/// Decline every question — the safe default with no human present.
#[derive(Clone, Copy, Debug, PartialEq, Eq, Structural)]
pub struct UnattendedQuestionsPlugin;

impl Plugin for UnattendedQuestionsPlugin {
    open spec fn described(&self) -> ManifestView {
        ManifestView {
            name: "user-questions-unattended"@,
            inject: Seq::empty(),
            uses: Seq::empty(),
            provides: seq!["user-questions"@],
            description: "decline every question — the safe default with no human present"@,
        }
    }

    fn manifest(&self) -> (m: Manifest) {
        Manifest {
            name: lit("user-questions-unattended"),
            inject: none_of(),
            uses: none_of(),
            provides: one_of(lit("user-questions")),
            description: lit("decline every question — the safe default with no human present"),
        }
    }
}

/// Ask a human before every risky call.
#[derive(Clone, Copy, Debug, PartialEq, Eq, Structural)]
pub struct InteractiveApprovalPlugin;

impl Plugin for InteractiveApprovalPlugin {
    open spec fn described(&self) -> ManifestView {
        ManifestView {
            name: "approval-interactive"@,
            inject: seq!["tools"@, "user-questions"@],
            uses: seq!["approval"@],
            provides: seq!["approval"@],
            description: "ask a human before every risky call"@,
        }
    }

    fn manifest(&self) -> (m: Manifest) {
        Manifest {
            name: lit("approval-interactive"),
            inject: two("tools", "user-questions"),
            uses: one_of(lit("approval")),
            provides: one_of(lit("approval")),
            description: lit("ask a human before every risky call"),
        }
    }
}

/// One metrics line per turn, derived from the session log.
#[derive(Clone, Copy, Debug, PartialEq, Eq, Structural)]
pub struct TelemetryPlugin;

impl Plugin for TelemetryPlugin {
    open spec fn described(&self) -> ManifestView {
        ManifestView {
            name: "telemetry"@,
            inject: Seq::empty(),
            uses: seq!["session-projections"@],
            provides: Seq::empty(),
            description: "one metrics line per turn, derived from the session log"@,
        }
    }

    fn manifest(&self) -> (m: Manifest) {
        Manifest {
            name: lit("telemetry"),
            inject: none_of(),
            uses: one_of(lit("session-projections")),
            provides: none_of(),
            description: lit("one metrics line per turn, derived from the session log"),
        }
    }
}

/// End a turn once it has spent enough prompt tokens.
#[derive(Clone, Copy, Debug, PartialEq, Eq, Structural)]
pub struct TokenBudgetPlugin;

impl Plugin for TokenBudgetPlugin {
    open spec fn described(&self) -> ManifestView {
        ManifestView {
            name: "token-budget"@,
            inject: Seq::empty(),
            uses: Seq::empty(),
            provides: Seq::empty(),
            description: "end a turn once it has spent enough prompt tokens"@,
        }
    }

    fn manifest(&self) -> (m: Manifest) {
        Manifest {
            name: lit("token-budget"),
            inject: none_of(),
            uses: none_of(),
            provides: none_of(),
            description: lit("end a turn once it has spent enough prompt tokens"),
        }
    }
}

/// End a turn after a round budget or a wall-clock deadline.
#[derive(Clone, Copy, Debug, PartialEq, Eq, Structural)]
pub struct RoundCapPlugin;

impl Plugin for RoundCapPlugin {
    open spec fn described(&self) -> ManifestView {
        ManifestView {
            name: "round-cap"@,
            inject: Seq::empty(),
            uses: seq!["tool-driver"@, "agents"@],
            provides: Seq::empty(),
            description: "end a turn after a round budget or a wall-clock deadline"@,
        }
    }

    fn manifest(&self) -> (m: Manifest) {
        Manifest {
            name: lit("round-cap"),
            inject: none_of(),
            uses: two("tool-driver", "agents"),
            provides: none_of(),
            description: lit("end a turn after a round budget or a wall-clock deadline"),
        }
    }
}

/// Retry a transient provider failure with doubling backoff, honouring a real Retry-After.
#[derive(Clone, Copy, Debug, PartialEq, Eq, Structural)]
pub struct RetryPlugin;

impl Plugin for RetryPlugin {
    open spec fn described(&self) -> ManifestView {
        ManifestView {
            name: "llm-retry"@,
            inject: Seq::empty(),
            uses: Seq::empty(),
            provides: Seq::empty(),
            description: "retry a transient provider failure with doubling backoff, honouring a real Retry-After"@,
        }
    }

    fn manifest(&self) -> (m: Manifest) {
        Manifest {
            name: lit("llm-retry"),
            inject: none_of(),
            uses: none_of(),
            provides: none_of(),
            description: lit("retry a transient provider failure with doubling backoff, honouring a real Retry-After"),
        }
    }
}

/// Model-free history compaction: keep recent turns, summarize the rest.
#[derive(Clone, Copy, Debug, PartialEq, Eq, Structural)]
pub struct CompactionPlugin;

impl Plugin for CompactionPlugin {
    open spec fn described(&self) -> ManifestView {
        ManifestView {
            name: "compaction-tail"@,
            inject: Seq::empty(),
            uses: seq!["compaction"@, "llm"@],
            provides: seq!["compaction"@],
            description: "model-free history compaction: keep recent turns, summarize the rest"@,
        }
    }

    fn manifest(&self) -> (m: Manifest) {
        Manifest {
            name: lit("compaction-tail"),
            inject: none_of(),
            uses: two("compaction", "llm"),
            provides: one_of(lit("compaction")),
            description: lit("model-free history compaction: keep recent turns, summarize the rest"),
        }
    }
}

/// Nudge, then stop, when the same calls repeat regardless of what they return.
#[derive(Clone, Copy, Debug, PartialEq, Eq, Structural)]
pub struct RepeatFusePlugin;

impl Plugin for RepeatFusePlugin {
    open spec fn described(&self) -> ManifestView {
        ManifestView {
            name: "repeat-fuse"@,
            inject: seq!["tools"@],
            uses: Seq::empty(),
            provides: Seq::empty(),
            description: "nudge, then stop, when the same calls repeat regardless of what they return"@,
        }
    }

    fn manifest(&self) -> (m: Manifest) {
        Manifest {
            name: lit("repeat-fuse"),
            inject: one_of(lit("tools")),
            uses: none_of(),
            provides: none_of(),
            description: lit("nudge, then stop, when the same calls repeat regardless of what they return"),
        }
    }
}

/// Warn, then stop, when the same call keeps returning the same result.
#[derive(Clone, Copy, Debug, PartialEq, Eq, Structural)]
pub struct ToolLoopGuardPlugin;

impl Plugin for ToolLoopGuardPlugin {
    open spec fn described(&self) -> ManifestView {
        ManifestView {
            name: "tool-loop-guard"@,
            inject: seq!["tools"@],
            uses: Seq::empty(),
            provides: Seq::empty(),
            description: "warn, then stop, when the same call keeps returning the same result"@,
        }
    }

    fn manifest(&self) -> (m: Manifest) {
        Manifest {
            name: lit("tool-loop-guard"),
            inject: one_of(lit("tools")),
            uses: none_of(),
            provides: none_of(),
            description: lit("warn, then stop, when the same call keeps returning the same result"),
        }
    }
}

/// History compaction summarized by the utility model, falling back to the model-free list.
#[derive(Clone, Copy, Debug, PartialEq, Eq, Structural)]
pub struct CompactionSummaryPlugin;

impl Plugin for CompactionSummaryPlugin {
    open spec fn described(&self) -> ManifestView {
        ManifestView {
            name: "compaction-summary"@,
            inject: Seq::empty(),
            uses: seq!["compaction"@, "llm"@, "llm-utility"@],
            provides: seq!["compaction"@],
            description: "history compaction summarized by the utility model, falling back to the model-free list"@,
        }
    }

    fn manifest(&self) -> (m: Manifest) {
        Manifest {
            name: lit("compaction-summary"),
            inject: none_of(),
            uses: three("compaction", "llm", "llm-utility"),
            provides: one_of(lit("compaction")),
            description: lit("history compaction summarized by the utility model, falling back to the model-free list"),
        }
    }
}

/// Wait out a 429, honouring a real Retry-After.
#[derive(Clone, Copy, Debug, PartialEq, Eq, Structural)]
pub struct RateLimitPlugin;

impl Plugin for RateLimitPlugin {
    open spec fn described(&self) -> ManifestView {
        ManifestView {
            name: "llm-rate-limit"@,
            inject: Seq::empty(),
            uses: Seq::empty(),
            provides: Seq::empty(),
            description: "wait out a 429, honouring a real Retry-After"@,
        }
    }

    fn manifest(&self) -> (m: Manifest) {
        Manifest {
            name: lit("llm-rate-limit"),
            inject: none_of(),
            uses: none_of(),
            provides: none_of(),
            description: lit("wait out a 429, honouring a real Retry-After"),
        }
    }
}

/// Compact and retry when the provider says the history no longer fits.
#[derive(Clone, Copy, Debug, PartialEq, Eq, Structural)]
pub struct OverflowPlugin;

impl Plugin for OverflowPlugin {
    open spec fn described(&self) -> ManifestView {
        ManifestView {
            name: "compaction-overflow"@,
            inject: seq!["sessions"@],
            uses: seq!["compaction"@],
            provides: Seq::empty(),
            description: "compact and retry when the provider says the history no longer fits"@,
        }
    }

    fn manifest(&self) -> (m: Manifest) {
        Manifest {
            name: lit("compaction-overflow"),
            inject: one_of(lit("sessions")),
            uses: one_of(lit("compaction")),
            provides: none_of(),
            description: lit("compact and retry when the provider says the history no longer fits"),
        }
    }
}

/// Bound one model request so a turn cannot hang forever.
#[derive(Clone, Copy, Debug, PartialEq, Eq, Structural)]
pub struct RequestTimeoutPlugin;

impl Plugin for RequestTimeoutPlugin {
    open spec fn described(&self) -> ManifestView {
        ManifestView {
            name: "llm-request-timeout"@,
            inject: Seq::empty(),
            uses: Seq::empty(),
            provides: Seq::empty(),
            description: "bound one model request so a turn cannot hang forever"@,
        }
    }

    fn manifest(&self) -> (m: Manifest) {
        Manifest {
            name: lit("llm-request-timeout"),
            inject: none_of(),
            uses: none_of(),
            provides: none_of(),
            description: lit("bound one model request so a turn cannot hang forever"),
        }
    }
}

/// Drop placeholder reasoning before it is stored and echoed back.
#[derive(Clone, Copy, Debug, PartialEq, Eq, Structural)]
pub struct ReasoningFilterPlugin;

impl Plugin for ReasoningFilterPlugin {
    open spec fn described(&self) -> ManifestView {
        ManifestView {
            name: "reasoning-filter"@,
            inject: Seq::empty(),
            uses: Seq::empty(),
            provides: Seq::empty(),
            description: "drop placeholder reasoning before it is stored and echoed back"@,
        }
    }

    fn manifest(&self) -> (m: Manifest) {
        Manifest {
            name: lit("reasoning-filter"),
            inject: none_of(),
            uses: none_of(),
            provides: none_of(),
            description: lit("drop placeholder reasoning before it is stored and echoed back"),
        }
    }
}

/// Keep what a broken stream produced and continue from it.
#[derive(Clone, Copy, Debug, PartialEq, Eq, Structural)]
pub struct StreamRecoveryPlugin;

impl Plugin for StreamRecoveryPlugin {
    open spec fn described(&self) -> ManifestView {
        ManifestView {
            name: "llm-stream-recovery"@,
            inject: seq!["sessions"@],
            uses: Seq::empty(),
            provides: Seq::empty(),
            description: "keep what a broken stream produced and continue from it"@,
        }
    }

    fn manifest(&self) -> (m: Manifest) {
        Manifest {
            name: lit("llm-stream-recovery"),
            inject: one_of(lit("sessions")),
            uses: none_of(),
            provides: none_of(),
            description: lit("keep what a broken stream produced and continue from it"),
        }
    }
}

/// Resume after an output-limit cut, and refuse a call whose arguments were cut.
#[derive(Clone, Copy, Debug, PartialEq, Eq, Structural)]
pub struct TruncationPlugin;

impl Plugin for TruncationPlugin {
    open spec fn described(&self) -> ManifestView {
        ManifestView {
            name: "truncation-recovery"@,
            inject: Seq::empty(),
            uses: Seq::empty(),
            provides: Seq::empty(),
            description: "resume after an output-limit cut, and refuse a call whose arguments were cut"@,
        }
    }

    fn manifest(&self) -> (m: Manifest) {
        Manifest {
            name: lit("truncation-recovery"),
            inject: none_of(),
            uses: none_of(),
            provides: none_of(),
            description: lit("resume after an output-limit cut, and refuse a call whose arguments were cut"),
        }
    }
}

/// How hard the model should think, independent of which model is mounted.
#[derive(Clone, Copy, Debug, PartialEq, Eq, Structural)]
pub struct ReasoningEffortPlugin;

impl Plugin for ReasoningEffortPlugin {
    open spec fn described(&self) -> ManifestView {
        ManifestView {
            name: "reasoning-effort"@,
            inject: Seq::empty(),
            uses: Seq::empty(),
            provides: Seq::empty(),
            description: "how hard the model should think, independent of which model is mounted"@,
        }
    }

    fn manifest(&self) -> (m: Manifest) {
        Manifest {
            name: lit("reasoning-effort"),
            inject: none_of(),
            uses: none_of(),
            provides: none_of(),
            description: lit("how hard the model should think, independent of which model is mounted"),
        }
    }
}

/// Tell the agent when the task list has stopped describing what it is doing.
#[derive(Clone, Copy, Debug, PartialEq, Eq, Structural)]
pub struct TodoReminderPlugin;

impl Plugin for TodoReminderPlugin {
    open spec fn described(&self) -> ManifestView {
        ManifestView {
            name: "todo-reminder"@,
            inject: Seq::empty(),
            uses: seq!["agents"@, "tools"@],
            provides: Seq::empty(),
            description: "tell the agent when the task list has stopped describing what it is doing"@,
        }
    }

    fn manifest(&self) -> (m: Manifest) {
        Manifest {
            name: lit("todo-reminder"),
            inject: none_of(),
            uses: two("agents", "tools"),
            provides: none_of(),
            description: lit("tell the agent when the task list has stopped describing what it is doing"),
        }
    }
}

/// Run the prompt given on the command line, then exit.
#[derive(Clone, Copy, Debug, PartialEq, Eq, Structural)]
pub struct OneShotUiPlugin;

impl Plugin for OneShotUiPlugin {
    open spec fn described(&self) -> ManifestView {
        ManifestView {
            name: "ui-oneshot"@,
            inject: seq!["agents"@, "agent-loop"@],
            uses: Seq::empty(),
            provides: seq!["ui"@],
            description: "run the prompt given on the command line, then exit"@,
        }
    }

    fn manifest(&self) -> (m: Manifest) {
        Manifest {
            name: lit("ui-oneshot"),
            inject: two("agents", "agent-loop"),
            uses: none_of(),
            provides: one_of(lit("ui")),
            description: lit("run the prompt given on the command line, then exit"),
        }
    }
}

/// No interaction; for embedding.
#[derive(Clone, Copy, Debug, PartialEq, Eq, Structural)]
pub struct QuietUiPlugin;

impl Plugin for QuietUiPlugin {
    open spec fn described(&self) -> ManifestView {
        ManifestView {
            name: "ui-quiet"@,
            inject: Seq::empty(),
            uses: Seq::empty(),
            provides: seq!["ui"@],
            description: "no interaction; for embedding"@,
        }
    }

    fn manifest(&self) -> (m: Manifest) {
        Manifest {
            name: lit("ui-quiet"),
            inject: none_of(),
            uses: none_of(),
            provides: one_of(lit("ui")),
            description: lit("no interaction; for embedding"),
        }
    }
}

/// Ask the person at the terminal.
#[derive(Clone, Copy, Debug, PartialEq, Eq, Structural)]
pub struct TerminalQuestionsPlugin;

impl Plugin for TerminalQuestionsPlugin {
    open spec fn described(&self) -> ManifestView {
        ManifestView {
            name: "user-questions-terminal"@,
            inject: Seq::empty(),
            uses: Seq::empty(),
            provides: seq!["user-questions"@],
            description: "ask the person at the terminal"@,
        }
    }

    fn manifest(&self) -> (m: Manifest) {
        Manifest {
            name: lit("user-questions-terminal"),
            inject: none_of(),
            uses: none_of(),
            provides: one_of(lit("user-questions")),
            description: lit("ask the person at the terminal"),
        }
    }
}

/// An interactive terminal session.
#[derive(Clone, Copy, Debug, PartialEq, Eq, Structural)]
pub struct ReplUiPlugin;

impl Plugin for ReplUiPlugin {
    open spec fn described(&self) -> ManifestView {
        ManifestView {
            name: "ui-repl"@,
            inject: seq!["agents"@, "agent-loop"@],
            uses: seq!["ui"@, "sessions"@, "session-title"@, "control"@],
            provides: seq!["ui"@],
            description: "an interactive terminal session"@,
        }
    }

    fn manifest(&self) -> (m: Manifest) {
        Manifest {
            name: lit("ui-repl"),
            inject: two("agents", "agent-loop"),
            uses: four("ui", "sessions", "session-title", "control"),
            provides: one_of(lit("ui")),
            description: lit("an interactive terminal session"),
        }
    }
}

/// Line-delimited JSON-RPC on stdio, for a program on the other end.
#[derive(Clone, Copy, Debug, PartialEq, Eq, Structural)]
pub struct JsonRpcUiPlugin;

impl Plugin for JsonRpcUiPlugin {
    open spec fn described(&self) -> ManifestView {
        ManifestView {
            name: "ui-jsonrpc"@,
            inject: seq!["agents"@, "agent-loop"@],
            uses: seq!["ui"@, "control"@, "session-defaults"@],
            provides: seq!["ui"@, "user-questions"@],
            description: "line-delimited JSON-RPC on stdio, for a program on the other end"@,
        }
    }

    fn manifest(&self) -> (m: Manifest) {
        Manifest {
            name: lit("ui-jsonrpc"),
            inject: two("agents", "agent-loop"),
            uses: three("ui", "control", "session-defaults"),
            provides: two("ui", "user-questions"),
            description: lit("line-delimited JSON-RPC on stdio, for a program on the other end"),
        }
    }
}

/// A full-screen terminal UI rendered from the session log.
#[derive(Clone, Copy, Debug, PartialEq, Eq, Structural)]
pub struct TuiUiPlugin;

impl Plugin for TuiUiPlugin {
    open spec fn described(&self) -> ManifestView {
        ManifestView {
            name: "ui-tui"@,
            inject: seq!["agents"@, "agent-loop"@, "sessions"@],
            uses: seq!["ui"@, "session-title"@],
            provides: seq!["ui"@],
            description: "a full-screen terminal UI rendered from the session log"@,
        }
    }

    fn manifest(&self) -> (m: Manifest) {
        Manifest {
            name: lit("ui-tui"),
            inject: three("agents", "agent-loop", "sessions"),
            uses: two("ui", "session-title"),
            provides: one_of(lit("ui")),
            description: lit("a full-screen terminal UI rendered from the session log"),
        }
    }
}

/// Ask inside the full-screen terminal.
#[derive(Clone, Copy, Debug, PartialEq, Eq, Structural)]
pub struct TuiQuestionsPlugin;

impl Plugin for TuiQuestionsPlugin {
    open spec fn described(&self) -> ManifestView {
        ManifestView {
            name: "user-questions-tui"@,
            inject: Seq::empty(),
            uses: Seq::empty(),
            provides: seq!["user-questions"@],
            description: "ask inside the full-screen terminal"@,
        }
    }

    fn manifest(&self) -> (m: Manifest) {
        Manifest {
            name: lit("user-questions-tui"),
            inject: none_of(),
            uses: none_of(),
            provides: one_of(lit("user-questions")),
            description: lit("ask inside the full-screen terminal"),
        }
    }
}

/// Print the turn as it happens, by listening to the loop's events.
#[derive(Clone, Copy, Debug, PartialEq, Eq, Structural)]
pub struct TracePlugin;

impl Plugin for TracePlugin {
    open spec fn described(&self) -> ManifestView {
        ManifestView {
            name: "trace"@,
            inject: Seq::empty(),
            uses: Seq::empty(),
            provides: Seq::empty(),
            description: "print the turn as it happens, by listening to the loop's events"@,
        }
    }

    fn manifest(&self) -> (m: Manifest) {
        Manifest {
            name: lit("trace"),
            inject: none_of(),
            uses: none_of(),
            provides: none_of(),
            description: lit("print the turn as it happens, by listening to the loop's events"),
        }
    }
}

pub open spec fn first_shelf() -> Seq<ManifestView> {
    seq![
        ToolsPlugin.described(),
        SystemPromptPlugin.described(),
        AgentsPlugin.described(),
        SessionPlugin.described(),
        SessionProjectionsPlugin.described(),
        SessionPersistenceJsonlPlugin.described(),
        OpenAiCompatPlugin.described(),
    ]
}

fn first() -> (out: Vec<Manifest>)
    ensures
        out.deep_view() == first_shelf(),
{
    let mut out: Vec<Manifest> = none_of();
    put(&mut out, ToolsPlugin.manifest());
    put(&mut out, SystemPromptPlugin.manifest());
    put(&mut out, AgentsPlugin.manifest());
    put(&mut out, SessionPlugin.manifest());
    put(&mut out, SessionProjectionsPlugin.manifest());
    put(&mut out, SessionPersistenceJsonlPlugin.manifest());
    put(&mut out, OpenAiCompatPlugin.manifest());
    assert(out.deep_view() =~= first_shelf());
    out
}

pub open spec fn second_shelf() -> Seq<ManifestView> {
    seq![
        AtomcodeConfigPlugin.described(),
        ReplayPlugin.described(),
        FsToolsPlugin.described(),
        SearchToolsPlugin.described(),
        AstGrepPlugin.described(),
        BashToolPlugin.described(),
        SkillsPlugin.described(),
    ]
}

fn second() -> (out: Vec<Manifest>)
    ensures
        out.deep_view() == second_shelf(),
{
    let mut out: Vec<Manifest> = none_of();
    put(&mut out, AtomcodeConfigPlugin.manifest());
    put(&mut out, ReplayPlugin.manifest());
    put(&mut out, FsToolsPlugin.manifest());
    put(&mut out, SearchToolsPlugin.manifest());
    put(&mut out, AstGrepPlugin.manifest());
    put(&mut out, BashToolPlugin.manifest());
    put(&mut out, SkillsPlugin.manifest());
    assert(out.deep_view() =~= second_shelf());
    out
}

pub open spec fn third_shelf() -> Seq<ManifestView> {
    seq![
        CodeIntelPlugin.described(),
        CodeGraphPlugin.described(),
        web_manifest(false),
        MemoryPlugin.described(),
        McpPlugin.described(),
        FindingsPlugin.described(),
        SubagentPlugin.described(),
    ]
}

fn third() -> (out: Vec<Manifest>)
    ensures
        out.deep_view() == third_shelf(),
{
    let mut out: Vec<Manifest> = none_of();
    put(&mut out, CodeIntelPlugin.manifest());
    put(&mut out, CodeGraphPlugin.manifest());
    put(&mut out, WebPlugin::new().manifest());
    put(&mut out, MemoryPlugin.manifest());
    put(&mut out, McpPlugin.manifest());
    put(&mut out, FindingsPlugin.manifest());
    put(&mut out, SubagentPlugin.manifest());
    assert(out.deep_view() =~= third_shelf());
    out
}

pub open spec fn fourth_shelf() -> Seq<ManifestView> {
    seq![
        CodingPersonaPlugin.described(),
        ReviewPersonaPlugin.described(),
        SecurityPersonaPlugin.described(),
        AgentLoopPlugin.described(),
        RepairArgsPlugin.described(),
        ApprovalPlugin.described(),
        ResultCapPlugin.described(),
    ]
}

fn fourth() -> (out: Vec<Manifest>)
    ensures
        out.deep_view() == fourth_shelf(),
{
    let mut out: Vec<Manifest> = none_of();
    put(&mut out, CodingPersonaPlugin.manifest());
    put(&mut out, ReviewPersonaPlugin.manifest());
    put(&mut out, SecurityPersonaPlugin.manifest());
    put(&mut out, AgentLoopPlugin.manifest());
    put(&mut out, RepairArgsPlugin.manifest());
    put(&mut out, ApprovalPlugin.manifest());
    put(&mut out, ResultCapPlugin.manifest());
    assert(out.deep_view() =~= fourth_shelf());
    out
}

pub open spec fn fifth_shelf() -> Seq<ManifestView> {
    seq![
        ParallelToolsPlugin.described(),
        RoundCapPlugin.described(),
        RetryPlugin.described(),
        RateLimitPlugin.described(),
        OverflowPlugin.described(),
        RequestTimeoutPlugin.described(),
        TruncationPlugin.described(),
    ]
}

fn fifth() -> (out: Vec<Manifest>)
    ensures
        out.deep_view() == fifth_shelf(),
{
    let mut out: Vec<Manifest> = none_of();
    put(&mut out, ParallelToolsPlugin.manifest());
    put(&mut out, RoundCapPlugin.manifest());
    put(&mut out, RetryPlugin.manifest());
    put(&mut out, RateLimitPlugin.manifest());
    put(&mut out, OverflowPlugin.manifest());
    put(&mut out, RequestTimeoutPlugin.manifest());
    put(&mut out, TruncationPlugin.manifest());
    assert(out.deep_view() =~= fifth_shelf());
    out
}

pub open spec fn sixth_shelf() -> Seq<ManifestView> {
    seq![
        ReasoningFilterPlugin.described(),
        CompactionPlugin.described(),
        ToolLoopGuardPlugin.described(),
        RepeatFusePlugin.described(),
        TodoPlugin.described(),
        PermissionsPlugin.described(),
        PlanModePlugin.described(),
    ]
}

fn sixth() -> (out: Vec<Manifest>)
    ensures
        out.deep_view() == sixth_shelf(),
{
    let mut out: Vec<Manifest> = none_of();
    put(&mut out, ReasoningFilterPlugin.manifest());
    put(&mut out, CompactionPlugin.manifest());
    put(&mut out, ToolLoopGuardPlugin.manifest());
    put(&mut out, RepeatFusePlugin.manifest());
    put(&mut out, TodoPlugin.manifest());
    put(&mut out, PermissionsPlugin.manifest());
    put(&mut out, PlanModePlugin.manifest());
    assert(out.deep_view() =~= sixth_shelf());
    out
}

pub open spec fn seventh_shelf() -> Seq<ManifestView> {
    seq![
        SessionTitlePlugin.described(),
        UnattendedQuestionsPlugin.described(),
        InteractiveApprovalPlugin.described(),
        TelemetryPlugin.described(),
        TokenBudgetPlugin.described(),
        OneShotUiPlugin.described(),
        ReplUiPlugin.described(),
    ]
}

fn seventh() -> (out: Vec<Manifest>)
    ensures
        out.deep_view() == seventh_shelf(),
{
    let mut out: Vec<Manifest> = none_of();
    put(&mut out, SessionTitlePlugin.manifest());
    put(&mut out, UnattendedQuestionsPlugin.manifest());
    put(&mut out, InteractiveApprovalPlugin.manifest());
    put(&mut out, TelemetryPlugin.manifest());
    put(&mut out, TokenBudgetPlugin.manifest());
    put(&mut out, OneShotUiPlugin.manifest());
    put(&mut out, ReplUiPlugin.manifest());
    assert(out.deep_view() =~= seventh_shelf());
    out
}

pub open spec fn eighth_shelf() -> Seq<ManifestView> {
    seq![
        TerminalQuestionsPlugin.described(),
        QuietUiPlugin.described(),
        JsonRpcUiPlugin.described(),
        TuiUiPlugin.described(),
        TuiQuestionsPlugin.described(),
        TracePlugin.described(),
    ]
}

fn eighth() -> (out: Vec<Manifest>)
    ensures
        out.deep_view() == eighth_shelf(),
{
    let mut out: Vec<Manifest> = none_of();
    put(&mut out, TerminalQuestionsPlugin.manifest());
    put(&mut out, QuietUiPlugin.manifest());
    put(&mut out, JsonRpcUiPlugin.manifest());
    put(&mut out, TuiUiPlugin.manifest());
    put(&mut out, TuiQuestionsPlugin.manifest());
    put(&mut out, TracePlugin.manifest());
    assert(out.deep_view() =~= eighth_shelf());
    out
}

pub open spec fn ninth_shelf() -> Seq<ManifestView> {
    seq![
        CommandsPlugin.described(),
        OperationsPlugin.described(),
        ModelTitlePlugin.described(),
        TitleOnFirstPromptPlugin.described(),
        LlmUtilityOpenAiCompatPlugin.described(),
        LlmUtilityReplayPlugin.described(),
        SkillsAdvertPlugin.described(),
    ]
}

fn ninth() -> (out: Vec<Manifest>)
    ensures
        out.deep_view() == ninth_shelf(),
{
    let mut out: Vec<Manifest> = none_of();
    put(&mut out, CommandsPlugin.manifest());
    put(&mut out, OperationsPlugin.manifest());
    put(&mut out, ModelTitlePlugin.manifest());
    put(&mut out, TitleOnFirstPromptPlugin.manifest());
    put(&mut out, LlmUtilityOpenAiCompatPlugin.manifest());
    put(&mut out, LlmUtilityReplayPlugin.manifest());
    put(&mut out, SkillsAdvertPlugin.manifest());
    assert(out.deep_view() =~= ninth_shelf());
    out
}

pub open spec fn tenth_shelf() -> Seq<ManifestView> {
    seq![
        ReviewToolPlugin.described(),
        ModelCatalogPlugin.described(),
        TeamPlugin.described(),
        AskPlugin.described(),
        RecallPlugin.described(),
        OpenerLocalPlugin.described(),
    ]
}

fn tenth() -> (out: Vec<Manifest>)
    ensures
        out.deep_view() == tenth_shelf(),
{
    let mut out: Vec<Manifest> = none_of();
    put(&mut out, ReviewToolPlugin.manifest());
    put(&mut out, ModelCatalogPlugin.manifest());
    put(&mut out, TeamPlugin.manifest());
    put(&mut out, AskPlugin.manifest());
    put(&mut out, RecallPlugin.manifest());
    put(&mut out, OpenerLocalPlugin.manifest());
    assert(out.deep_view() =~= tenth_shelf());
    out
}

pub open spec fn eleventh_shelf() -> Seq<ManifestView> {
    seq![
        OpenFileToolPlugin.described(),
        SelfKnowledgePlugin.described(),
        ProjectInstructionsPlugin.described(),
        AgentHandlePlugin.described(),
        DelegationBoundsPlugin.described(),
        SensitivePathsPlugin.described(),
    ]
}

fn eleventh() -> (out: Vec<Manifest>)
    ensures
        out.deep_view() == eleventh_shelf(),
{
    let mut out: Vec<Manifest> = none_of();
    put(&mut out, OpenFileToolPlugin.manifest());
    put(&mut out, SelfKnowledgePlugin.manifest());
    put(&mut out, ProjectInstructionsPlugin.manifest());
    put(&mut out, AgentHandlePlugin.manifest());
    put(&mut out, DelegationBoundsPlugin.manifest());
    put(&mut out, SensitivePathsPlugin.manifest());
    assert(out.deep_view() =~= eleventh_shelf());
    out
}

pub open spec fn twelfth_shelf() -> Seq<ManifestView> {
    seq![
        OpenFileWorkspacePlugin.described(),
        OutputArtifactPlugin.described(),
        CompactionSummaryPlugin.described(),
        StreamRecoveryPlugin.described(),
        ReasoningEffortPlugin.described(),
        TodoReminderPlugin.described(),
    ]
}

fn twelfth() -> (out: Vec<Manifest>)
    ensures
        out.deep_view() == twelfth_shelf(),
{
    let mut out: Vec<Manifest> = none_of();
    put(&mut out, OpenFileWorkspacePlugin.manifest());
    put(&mut out, OutputArtifactPlugin.manifest());
    put(&mut out, CompactionSummaryPlugin.manifest());
    put(&mut out, StreamRecoveryPlugin.manifest());
    put(&mut out, ReasoningEffortPlugin.manifest());
    put(&mut out, TodoReminderPlugin.manifest());
    assert(out.deep_view() =~= twelfth_shelf());
    out
}

/// What every plugin of this library says of itself. Each plugin described in this
/// file stands here once.
pub open spec fn shipped() -> Seq<ManifestView> {
    first_shelf() + second_shelf() + third_shelf() + fourth_shelf() + fifth_shelf()
        + sixth_shelf() + seventh_shelf() + eighth_shelf() + ninth_shelf() + tenth_shelf()
        + eleventh_shelf() + twelfth_shelf()
}

/// The catalog. Which of its plugins run is the configuration's to say.
pub fn catalog() -> (out: Vec<Manifest>)
    ensures
        out.deep_view() == shipped(),
{
    let mut out = first();
    put_all(&mut out, second());
    put_all(&mut out, third());
    put_all(&mut out, fourth());
    put_all(&mut out, fifth());
    put_all(&mut out, sixth());
    put_all(&mut out, seventh());
    put_all(&mut out, eighth());
    put_all(&mut out, ninth());
    put_all(&mut out, tenth());
    put_all(&mut out, eleventh());
    put_all(&mut out, twelfth());
    out
}

} // verus!

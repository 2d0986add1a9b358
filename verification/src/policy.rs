//! Gates a tool call passes on its way to running, and what happens to its result.
//!
//! Each gate lets a call through, refuses it with a result the model can react to, or
//! rewrites what comes back.
use crate::asking::{Decision, DecisionView, RiskLevel, NEVER_GRANT};
use crate::data::{none_of, one_of, Dup};
use crate::events::{ToolCall, ToolCallView, ToolResult, ToolResultView};
use crate::stream;
use crate::stream::error_result;
use crate::text;
use crate::text::{among, lead, lit, number, same, trail};
use vstd::prelude::*;

verus! {

/// Whether a call still needs asking about.
#[derive(Clone, Copy, Debug, PartialEq, Eq, Structural)]
pub enum Authorization {
    /// Nobody has settled it.
    No,
    /// A rule or a gate settled it, not the person.
    Presumed,
    /// The person said yes to this call.
    Person,
}

impl DeepView for Authorization {
    type V = Authorization;

    open spec fn deep_view(&self) -> Authorization {
        *self
    }
}

impl Dup for Authorization {
    fn dup(&self) -> (r: Self) {
        *self
    }
}

/// What runs without asking.
#[derive(Clone, Copy, Debug, PartialEq, Eq, Structural)]
pub enum ApprovalMode {
    /// Everything runs. For sandboxes and evals.
    Yolo,
    /// Tools that declare themselves risky for these arguments are refused.
    DenyRisky,
    /// Only tools that declare themselves read-only run.
    ReadOnly,
}

impl DeepView for ApprovalMode {
    type V = ApprovalMode;

    open spec fn deep_view(&self) -> ApprovalMode {
        *self
    }
}

impl Dup for ApprovalMode {
    fn dup(&self) -> (r: Self) {
        *self
    }
}

/// What a gate makes of a call.
#[derive(Debug, PartialEq, Eq)]
pub enum Passage {
    Run,
    /// It does not run; this is its result.
    Refuse { result: ToolResult },
}

/// What a [`Passage`] holds.
#[verifier::ext_equal]
pub enum PassageView {
    Run,
    Refuse { result: ToolResultView },
}

impl DeepView for Passage {
    type V = PassageView;

    open spec fn deep_view(&self) -> PassageView {
        match self {
            Passage::Run => PassageView::Run,
            Passage::Refuse { result } => PassageView::Refuse {
                result: result.deep_view(),
            },
        }
    }
}

impl Dup for Passage {
    fn dup(&self) -> (r: Self) {
        match self {
            Passage::Run => Passage::Run,
            Passage::Refuse { result } => Passage::Refuse {
                result: result.dup(),
            },
        }
    }
}

impl Clone for Passage {
    fn clone(&self) -> (r: Self)
        ensures
            r.deep_view() == self.deep_view(),
    {
        self.dup()
    }
}

/// Approval by rules.
#[derive(Debug, PartialEq, Eq)]
pub struct RulePolicy {
    pub mode: ApprovalMode,
    /// Tool names that always run.
    pub allow: Vec<String>,
    /// Tool names that never run.
    pub deny: Vec<String>,
}

/// What a [`RulePolicy`] holds.
#[verifier::ext_equal]
pub struct RulePolicyView {
    pub mode: ApprovalMode,
    pub allow: Seq<Seq<char>>,
    pub deny: Seq<Seq<char>>,
}

impl DeepView for RulePolicy {
    type V = RulePolicyView;

    open spec fn deep_view(&self) -> RulePolicyView {
        RulePolicyView {
            mode: self.mode.deep_view(),
            allow: self.allow.deep_view(),
            deny: self.deny.deep_view(),
        }
    }
}

impl Dup for RulePolicy {
    fn dup(&self) -> (r: Self) {
        RulePolicy {
            mode: self.mode.dup(),
            allow: self.allow.dup(),
            deny: self.deny.dup(),
        }
    }
}

impl Clone for RulePolicy {
    fn clone(&self) -> (r: Self)
        ensures
            r.deep_view() == self.deep_view(),
    {
        self.dup()
    }
}

/// A tool presented as risky, whatever it says of itself.
#[derive(Debug, PartialEq, Eq)]
pub struct AsRisky {
    /// What the person is shown.
    pub name: String,
    /// What an "always" covers; the tool's own scope where none is given.
    pub scope: Option<String>,
    /// Whether an "always" may be offered at all.
    pub grantable: bool,
}

/// What a [`AsRisky`] holds.
#[verifier::ext_equal]
pub struct AsRiskyView {
    pub name: Seq<char>,
    pub scope: Option<Seq<char>>,
    pub grantable: bool,
}

impl DeepView for AsRisky {
    type V = AsRiskyView;

    open spec fn deep_view(&self) -> AsRiskyView {
        AsRiskyView {
            name: self.name.deep_view(),
            scope: self.scope.deep_view(),
            grantable: self.grantable.deep_view(),
        }
    }
}

impl Dup for AsRisky {
    fn dup(&self) -> (r: Self) {
        AsRisky {
            name: self.name.dup(),
            scope: self.scope.dup(),
            grantable: self.grantable.dup(),
        }
    }
}

impl Clone for AsRisky {
    fn clone(&self) -> (r: Self)
        ensures
            r.deep_view() == self.deep_view(),
    {
        self.dup()
    }
}

impl Authorization {
    /// Somebody settled the question, one way or another.
    pub fn settled(self) -> (r: bool)
        ensures
            r == !(self is No),
    {
        self != Authorization::No
    }

    /// The person settled it.
    pub fn by_person(self) -> (r: bool)
        ensures
            r == (self is Person),
    {
        self == Authorization::Person
    }
}

impl Default for ApprovalMode {
    fn default() -> (m: Self)
        ensures
            m is DenyRisky,
    {
        ApprovalMode::DenyRisky
    }
}

impl Default for RulePolicy {
    fn default() -> (p: Self)
        ensures
            p.deep_view() == (RulePolicyView {
                mode: ApprovalMode::DenyRisky,
                allow: Seq::empty(),
                deny: Seq::empty(),
            }),
    {
        RulePolicy { mode: ApprovalMode::DenyRisky, allow: none_of(), deny: none_of() }
    }
}

/// A refusal: an error the model can react to.
pub open spec fn refusal(call_id: Seq<char>, why: Seq<char>) -> PassageView {
    PassageView::Refuse { result: stream::error_of(call_id, "Refused: "@ + why) }
}

pub fn refuse(call_id: &str, why: &str) -> (p: Passage)
    ensures
        p.deep_view() == refusal(call_id@, why@),
{
    let content = lit("Refused: ").concat(why);
    Passage::Refuse { result: error_result(call_id, content.as_str()) }
}

// ---- argument repair ------------------------------------------------------

/// The call as everything below the repair sees it.
pub fn repaired(call: ToolCall, arguments: String) -> (r: ToolCall)
    ensures
        r.deep_view() == (ToolCallView { arguments: arguments@, ..call.deep_view() }),
{
    ToolCall { arguments, ..call }
}

// ---- approval by rules ----------------------------------------------------

pub const RISKY_REFUSAL: &'static str = "` is risky and this harness refuses risky calls without asking (approval mode `deny-risky`, and nothing here can ask a human).\n  To let it run: rerun with `--profile repl` or `--tui` to be asked, `--yolo` to allow everything, or allow just this tool with `--patch` on the `permissions` row.";

pub const READ_ONLY_REFUSAL: &'static str = "` may have side effects and this harness is read-only (approval mode `read-only`). Rerun without `--plan`/`--read-only` to allow changes.";

/// A denied name never runs, an allowed one always does; the mode settles the rest.
pub open spec fn ruled(
    p: RulePolicyView,
    name: Seq<char>,
    risk: RiskLevel,
    read_only: bool,
) -> DecisionView {
    if p.deny.contains(name) {
        DecisionView::Deny("`"@ + name + "` is denied by configuration"@)
    } else if p.allow.contains(name) {
        DecisionView::Allow
    } else {
        match p.mode {
            ApprovalMode::Yolo => DecisionView::Allow,
            ApprovalMode::DenyRisky => match risk {
                RiskLevel::Safe => DecisionView::Allow,
                RiskLevel::Risky => DecisionView::Deny("`"@ + name + RISKY_REFUSAL@),
            },
            ApprovalMode::ReadOnly => if read_only {
                DecisionView::Allow
            } else {
                DecisionView::Deny("`"@ + name + READ_ONLY_REFUSAL@)
            },
        }
    }
}

impl RulePolicy {
    pub fn decide(&self, name: &str, risk: RiskLevel, read_only: bool) -> (d: Decision)
        ensures
            d.deep_view() == ruled(self.deep_view(), name@, risk, read_only),
    {
        if among(&self.deny, name) {
            return Decision::Deny(lit("`").concat(name).concat("` is denied by configuration"));
        }
        if among(&self.allow, name) {
            return Decision::Allow;
        }
        match self.mode {
            ApprovalMode::Yolo => Decision::Allow,
            ApprovalMode::DenyRisky => match risk {
                RiskLevel::Safe => Decision::Allow,
                RiskLevel::Risky => Decision::Deny(lit("`").concat(name).concat(RISKY_REFUSAL)),
            },
            ApprovalMode::ReadOnly => {
                if read_only {
                    Decision::Allow
                } else {
                    Decision::Deny(lit("`").concat(name).concat(READ_ONLY_REFUSAL))
                }
            },
        }
    }
}

/// A denied name is refused in every mode, also where it is on the allow list.
pub proof fn law_deny_beats_allow(p: RulePolicyView, name: Seq<char>, risk: RiskLevel, ro: bool)
    requires
        p.deny.contains(name),
    ensures
        ruled(p, name, risk, ro) is Deny,
{
}

/// An allowed name that is not denied runs in every mode.
pub proof fn law_allow_beats_mode(p: RulePolicyView, name: Seq<char>, risk: RiskLevel, ro: bool)
    requires
        p.allow.contains(name),
        !p.deny.contains(name),
    ensures
        ruled(p, name, risk, ro) is Allow,
{
}

/// A stricter mode never lets through what a laxer one refuses: what the default mode
/// or the read-only mode allows, the permissive one does.
pub proof fn law_yolo_is_widest(p: RulePolicyView, name: Seq<char>, risk: RiskLevel, ro: bool)
    ensures
        ruled(p, name, risk, ro) is Allow ==> ruled(
            RulePolicyView { mode: ApprovalMode::Yolo, ..p },
            name,
            risk,
            ro,
        ) is Allow,
{
}

/// The approval gate has to ask its policy: nobody settled the call, there is a policy,
/// and the tool is known. An unknown tool gets its own error further down.
pub open spec fn unsettled(a: Authorization, has_policy: bool, tool_known: bool) -> bool {
    a is No && has_policy && tool_known
}

pub fn needs_approval(a: Authorization, has_policy: bool, tool_known: bool) -> (r: bool)
    ensures
        r == unsettled(a, has_policy, tool_known),
{
    !a.settled() && has_policy && tool_known
}

/// What becomes of a call once a policy has decided.
pub open spec fn gated(d: DecisionView, call_id: Seq<char>) -> PassageView {
    match d {
        DecisionView::Allow => PassageView::Run,
        DecisionView::Deny(reason) => refusal(call_id, reason),
    }
}

pub fn approval_gate(d: Decision, call_id: &str) -> (p: Passage)
    ensures
        p.deep_view() == gated(d.deep_view(), call_id@),
{
    match d {
        Decision::Allow => Passage::Run,
        Decision::Deny(reason) => refuse(call_id, reason.as_str()),
    }
}

// ---- result capping -------------------------------------------------------

pub fn default_cap() -> (n: usize)
    ensures
        n == 65536,
{
    65536
}

pub open spec fn cap_note(bytes: nat) -> Seq<char> {
    "\n\n[... "@ + text::decimal(bytes) + " bytes truncated by tool-result-cap ...]\n\n"@
}

pub open spec fn byte_len(s: Seq<char>) -> usize {
    vstd::utf8::encode_utf8(s).len() as usize
}

/// A result over `max_bytes` keeps its head and its tail, half the limit each in
/// characters, around a note of how long it was. Zero is no limit. The limit is measured
/// in bytes and what is kept in characters, so of a text of wide characters the head and
/// the tail may overlap.
pub open spec fn capped(content: Seq<char>, max_bytes: usize) -> Seq<char> {
    if max_bytes > 0 && byte_len(content) > max_bytes {
        let keep = max_bytes as int / 2;
        text::leading(content, keep) + cap_note(byte_len(content) as nat) + text::trailing(
            content,
            keep,
        )
    } else {
        content
    }
}

pub fn cap_result(result: ToolResult, max_bytes: usize) -> (r: ToolResult)
    ensures
        r.deep_view() == (ToolResultView {
            content: capped(result.content@, max_bytes),
            ..result.deep_view()
        }),
{
    let bytes = result.content.as_str().len();
    if max_bytes > 0 && bytes > max_bytes {
        let keep = max_bytes / 2;
        let note = lit("\n\n[... ").concat(number(bytes as u64).as_str()).concat(
            " bytes truncated by tool-result-cap ...]\n\n",
        );
        let content = lit(lead(result.content.as_str(), keep)).concat(note.as_str()).concat(
            trail(result.content.as_str(), keep),
        );
        ToolResult { content, ..result }
    } else {
        result
    }
}

/// One runaway output cannot fill the window: whatever a tool returns, what is left of
/// it has at most as many characters as the limit has bytes, besides the note. A
/// result within the limit is untouched.
pub proof fn law_cap_bounds(content: Seq<char>, max_bytes: usize)
    requires
        max_bytes > 0,
    ensures
        byte_len(content) <= max_bytes ==> capped(content, max_bytes) == content,
        byte_len(content) > max_bytes ==> capped(content, max_bytes).len() <= max_bytes + cap_note(
            byte_len(content) as nat,
        ).len(),
{
}

// ---- sensitive paths ------------------------------------------------------

/// The scope an "always" is remembered under, for a tool presented as risky.
pub open spec fn grant_scope(r: AsRiskyView, inner: Seq<char>) -> Seq<char> {
    if !r.grantable {
        NEVER_GRANT@
    } else {
        match r.scope {
            Some(s) => s,
            None => inner,
        }
    }
}

impl AsRisky {
    /// What the wrapped tool says of a call: risky, always.
    pub fn risk(&self) -> (r: RiskLevel)
        ensures
            r is Risky,
    {
        RiskLevel::Risky
    }

    /// What an "always" is remembered under. `inner` is the wrapped tool's own scope.
    pub fn always_grant_scope(&self, inner: String) -> (r: String)
        ensures
            r@ == grant_scope(self.deep_view(), inner@),
    {
        if !self.grantable {
            return lit(NEVER_GRANT);
        }
        match &self.scope {
            Some(s) => s.clone(),
            None => inner,
        }
    }

    /// The tool as the sensitive-path gate presents it.
    pub fn sensitive(tool: &str) -> (r: Self)
        ensures
            r.deep_view() == (AsRiskyView {
                name: tool@ + " (sensitive path)"@,
                scope: None,
                grantable: true,
            }),
    {
        AsRisky { name: lit(tool).concat(" (sensitive path)"), scope: None, grantable: true }
    }
}

/// The guard asks: a safe tool, whose arguments name a sensitive path, and which the
/// person has not said yes to. A risky tool is asked about anyway.
pub open spec fn guarded(
    a: Authorization,
    has_policy: bool,
    tool_known: bool,
    risk: RiskLevel,
    sensitive: bool,
) -> bool {
    !(a is Person) && has_policy && tool_known && risk is Safe && sensitive
}

/// What becomes of a guarded call once a policy has decided.
pub open spec fn let_past(d: DecisionView, call_id: Seq<char>) -> PassageView {
    match d {
        DecisionView::Allow => PassageView::Run,
        DecisionView::Deny(reason) => refusal(
            call_id,
            "the arguments name a sensitive path (credentials, keys, `.env`) and "@ + reason,
        ),
    }
}

/// The guard ahead of a read that names a credential.
pub struct SensitivePathGate;

impl SensitivePathGate {
    pub fn asks(
        a: Authorization,
        has_policy: bool,
        tool_known: bool,
        risk: RiskLevel,
        sensitive: bool,
    ) -> (r: bool)
        ensures
            r == guarded(a, has_policy, tool_known, risk, sensitive),
    {
        !a.by_person() && has_policy && tool_known && risk == RiskLevel::Safe && sensitive
    }

    pub fn passed(d: Decision, call_id: &str) -> (p: Passage)
        ensures
            p.deep_view() == let_past(d.deep_view(), call_id@),
    {
        match d {
            Decision::Allow => Passage::Run,
            Decision::Deny(reason) => {
                let why = lit(
                    "the arguments name a sensitive path (credentials, keys, `.env`) and ",
                ).concat(reason.as_str());
                refuse(call_id, why.as_str())
            },
        }
    }
}

// ---- what a delegated agent may never do ----------------------------------

/// Tools a delegated agent never runs: a shell, and delegating further.
pub open spec fn never_delegated(name: Seq<char>) -> bool {
    name == "bash"@ || name == "team"@ || name == "task"@
}

/// The guard every delegated agent's calls pass.
pub struct DelegationBounds;

/// What a delegated agent may never do is refused, whatever a policy below would say.
/// `violation` says why a write is outside the agent's lane, where it is.
/// The files a delegated agent may write: its lane, or anything where it has none.
pub open spec fn scopes_of(lane: Option<Seq<Seq<char>>>) -> Seq<Seq<char>> {
    match lane {
        Some(s) => s,
        None => seq!["**"@],
    }
}

/// An agent is a delegated one.
pub open spec fn is_delegated(has_lane: bool, has_parent: bool) -> bool {
    has_lane || has_parent
}

pub open spec fn bounded(
    delegated: bool,
    name: Seq<char>,
    call_id: Seq<char>,
    sensitive: bool,
    violation: Option<Seq<char>>,
) -> PassageView {
    if !delegated {
        PassageView::Run
    } else if never_delegated(name) {
        refusal(call_id, "a delegated agent never runs `"@ + name + "`"@)
    } else if sensitive {
        refusal(
            call_id,
            "a delegated agent may not touch sensitive paths (credentials, keys, `.env`): `"@
                + name + "`"@,
        )
    } else {
        match violation {
            Some(why) => refusal(call_id, why),
            None => PassageView::Run,
        }
    }
}

impl DelegationBounds {
    /// An agent is delegated where it was given a lane or has a parent.
    pub fn delegated(has_lane: bool, has_parent: bool) -> (r: bool)
        ensures
            r == is_delegated(has_lane, has_parent),
    {
        has_lane || has_parent
    }

    /// Where a delegated agent may write: its lane, or anywhere in its workspace.
    pub fn scopes(lane: Option<Vec<String>>) -> (r: Vec<String>)
        ensures
            r.deep_view() == scopes_of(lane.deep_view()),
    {
        match lane {
            Some(s) => s,
            None => one_of(lit("**")),
        }
    }

    pub fn check(
        delegated: bool,
        name: &str,
        call_id: &str,
        sensitive: bool,
        violation: Option<String>,
    ) -> (p: Passage)
        ensures
            p.deep_view() == bounded(
                delegated,
                name@,
                call_id@,
                sensitive,
                violation.deep_view(),
            ),
    {
        if !delegated {
            return Passage::Run;
        }
        if same(name, "bash") || same(name, "team") || same(name, "task") {
            let why = lit("a delegated agent never runs `").concat(name).concat("`");
            return refuse(call_id, why.as_str());
        }
        if sensitive {
            let why = lit(
                "a delegated agent may not touch sensitive paths (credentials, keys, `.env`): `",
            ).concat(name).concat("`");
            return refuse(call_id, why.as_str());
        }
        match violation {
            Some(why) => refuse(call_id, why.as_str()),
            None => Passage::Run,
        }
    }
}

/// A delegated agent has no shell and cannot delegate further, whatever it is asked to
/// do and wherever it may write.
pub proof fn law_delegated_never_shells(
    name: Seq<char>,
    call_id: Seq<char>,
    sensitive: bool,
    violation: Option<Seq<char>>,
)
    requires
        never_delegated(name),
    ensures
        bounded(true, name, call_id, sensitive, violation) is Refuse,
{
}

// ---- the workspace and the artifacts --------------------------------------

/// A call nobody settled is presumed settled where its target is inside the
/// workspace.
pub open spec fn presumed(a: Authorization, inside: bool) -> Authorization {
    if a is No && inside {
        Authorization::Presumed
    } else {
        a
    }
}

pub fn presume(a: Authorization, inside: bool) -> (r: Authorization)
    ensures
        r == presumed(a, inside),
{
    if !a.settled() && inside {
        Authorization::Presumed
    } else {
        a
    }
}

/// Where spilled outputs go. Without a place for them the row refuses to mount.
pub fn artifact_dir(dir: Option<String>) -> (r: Result<String, String>)
    ensures
        match dir.deep_view() {
            Some(d) => r matches Ok(p) && p@ == d,
            None => r matches Err(e) && e@
                == "`tool-output-artifact` needs `config = { dir = … }`"@,
        },
{
    match dir {
        Some(d) => Ok(d),
        None => Err(lit("`tool-output-artifact` needs `config = { dir = … }`")),
    }
}

} // verus!

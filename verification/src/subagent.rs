//! Subagents: a child agent for one delegated task, in a world of its own.
use crate::ask;
use crate::asking::RiskLevel;
use crate::data::{none_of, one_of, put, Dup};
use crate::effort;
use crate::effort::{said, ReasoningEffort};
use crate::events::{
    LoggedEvent, LoggedEventView, SessionEvent, SessionEventView, StopReason, ToolResult,
};
use crate::log;
use crate::roles;
use crate::roles::explore_tools;
use crate::team;
use crate::team::{all_read, hand_down, Chose};
use crate::text;
use crate::text::{among, first_line_of, join, lit, number, same};
use crate::turn::TurnProgress;
use vstd::prelude::*;

verus! {

/// What a child's one turn came to.
#[derive(Debug, PartialEq, Eq)]
pub struct SubagentOutcome {
    pub text: String,
    pub rounds: u32,
    pub tool_calls: u32,
    pub stop: StopReason,
    pub error: Option<String>,
    pub transcript_len: usize,
}

/// What a [`SubagentOutcome`] holds.
#[verifier::ext_equal]
pub struct SubagentOutcomeView {
    pub text: Seq<char>,
    pub rounds: u32,
    pub tool_calls: u32,
    pub stop: StopReason,
    pub error: Option<Seq<char>>,
    pub transcript_len: usize,
}

impl DeepView for SubagentOutcome {
    type V = SubagentOutcomeView;

    open spec fn deep_view(&self) -> SubagentOutcomeView {
        SubagentOutcomeView {
            text: self.text.deep_view(),
            rounds: self.rounds.deep_view(),
            tool_calls: self.tool_calls.deep_view(),
            stop: self.stop.deep_view(),
            error: self.error.deep_view(),
            transcript_len: self.transcript_len.deep_view(),
        }
    }
}

impl Dup for SubagentOutcome {
    fn dup(&self) -> (r: Self) {
        SubagentOutcome {
            text: self.text.dup(),
            rounds: self.rounds.dup(),
            tool_calls: self.tool_calls.dup(),
            stop: self.stop.dup(),
            error: self.error.dup(),
            transcript_len: self.transcript_len.dup(),
        }
    }
}

impl Clone for SubagentOutcome {
    fn clone(&self) -> (r: Self)
        ensures
            r.deep_view() == self.deep_view(),
    {
        self.dup()
    }
}

/// The model a child runs on.
#[derive(Debug, PartialEq, Eq)]
pub enum ChildModel {
    /// The one it was named.
    Named(String),
    /// The one the host keeps for delegated work.
    Delegated,
    /// The conversation's own.
    Inherited,
}

/// What a [`ChildModel`] holds.
#[verifier::ext_equal]
pub enum ChildModelView {
    Named(Seq<char>),
    Delegated,
    Inherited,
}

impl DeepView for ChildModel {
    type V = ChildModelView;

    open spec fn deep_view(&self) -> ChildModelView {
        match self {
            ChildModel::Named(id) => ChildModelView::Named(id.deep_view()),
            ChildModel::Delegated => ChildModelView::Delegated,
            ChildModel::Inherited => ChildModelView::Inherited,
        }
    }
}

impl Dup for ChildModel {
    fn dup(&self) -> (r: Self) {
        match self {
            ChildModel::Named(id) => ChildModel::Named(id.dup()),
            ChildModel::Delegated => ChildModel::Delegated,
            ChildModel::Inherited => ChildModel::Inherited,
        }
    }
}

impl Clone for ChildModel {
    fn clone(&self) -> (r: Self)
        ensures
            r.deep_view() == self.deep_view(),
    {
        self.dup()
    }
}

/// How a child is put together.
#[derive(Debug, PartialEq, Eq)]
pub struct ChildPlan {
    pub session: String,
    pub model: ChildModel,
    pub parent: Option<String>,
    pub tools: Vec<String>,
    pub instructions: String,
    pub lane: Vec<String>,
    pub effort: Option<ReasoningEffort>,
    /// What it is told first.
    pub first: String,
}

/// What a [`ChildPlan`] holds.
#[verifier::ext_equal]
pub struct ChildPlanView {
    pub session: Seq<char>,
    pub model: ChildModelView,
    pub parent: Option<Seq<char>>,
    pub tools: Seq<Seq<char>>,
    pub instructions: Seq<char>,
    pub lane: Seq<Seq<char>>,
    pub effort: Option<ReasoningEffort>,
    pub first: Seq<char>,
}

impl DeepView for ChildPlan {
    type V = ChildPlanView;

    open spec fn deep_view(&self) -> ChildPlanView {
        ChildPlanView {
            session: self.session.deep_view(),
            model: self.model.deep_view(),
            parent: self.parent.deep_view(),
            tools: self.tools.deep_view(),
            instructions: self.instructions.deep_view(),
            lane: self.lane.deep_view(),
            effort: self.effort.deep_view(),
            first: self.first.deep_view(),
        }
    }
}

impl Dup for ChildPlan {
    fn dup(&self) -> (r: Self) {
        ChildPlan {
            session: self.session.dup(),
            model: self.model.dup(),
            parent: self.parent.dup(),
            tools: self.tools.dup(),
            instructions: self.instructions.dup(),
            lane: self.lane.dup(),
            effort: self.effort.dup(),
            first: self.first.dup(),
        }
    }
}

impl Clone for ChildPlan {
    fn clone(&self) -> (r: Self)
        ensures
            r.deep_view() == self.deep_view(),
    {
        self.dup()
    }
}

/// A model on offer.
#[derive(Debug, PartialEq, Eq)]
pub struct ModelInfo {
    pub id: String,
    pub display_name: String,
    pub context_window: u32,
    pub supports_vision: bool,
    pub effort_levels: Vec<String>,
    pub note: Option<String>,
    pub capable_rank: Option<u32>,
}

/// What a [`ModelInfo`] holds.
#[verifier::ext_equal]
pub struct ModelInfoView {
    pub id: Seq<char>,
    pub display_name: Seq<char>,
    pub context_window: u32,
    pub supports_vision: bool,
    pub effort_levels: Seq<Seq<char>>,
    pub note: Option<Seq<char>>,
    pub capable_rank: Option<u32>,
}

impl DeepView for ModelInfo {
    type V = ModelInfoView;

    open spec fn deep_view(&self) -> ModelInfoView {
        ModelInfoView {
            id: self.id.deep_view(),
            display_name: self.display_name.deep_view(),
            context_window: self.context_window.deep_view(),
            supports_vision: self.supports_vision.deep_view(),
            effort_levels: self.effort_levels.deep_view(),
            note: self.note.deep_view(),
            capable_rank: self.capable_rank.deep_view(),
        }
    }
}

impl Dup for ModelInfo {
    fn dup(&self) -> (r: Self) {
        ModelInfo {
            id: self.id.dup(),
            display_name: self.display_name.dup(),
            context_window: self.context_window.dup(),
            supports_vision: self.supports_vision.dup(),
            effort_levels: self.effort_levels.dup(),
            note: self.note.dup(),
            capable_rank: self.capable_rank.dup(),
        }
    }
}

impl Clone for ModelInfo {
    fn clone(&self) -> (r: Self)
        ensures
            r.deep_view() == self.deep_view(),
    {
        self.dup()
    }
}

// ---- the child's own budget -----------------------------------------------

/// Ends a delegated turn after its own budget; zero is no budget of its own.
#[derive(Clone, Copy, Debug, PartialEq, Eq, Structural)]
pub struct ChildRoundCap {
    pub max_steps: u32,
}

impl ChildRoundCap {
    pub fn call(&self, progress: &TurnProgress) -> (stop: Option<StopReason>)
        ensures
            stop == capped(self.max_steps, progress.rounds),
    {
        if self.max_steps > 0 && progress.rounds >= self.max_steps {
            Some(StopReason::MaxRounds)
        } else {
            None
        }
    }
}
/// Why a turn that may take `max_steps` rounds, where that is limited, ends after `rounds`.
pub open spec fn capped(max_steps: u32, rounds: u32) -> Option<StopReason> {
    if max_steps > 0 && rounds >= max_steps {
        Some(StopReason::MaxRounds)
    } else {
        None
    }
}

pub fn default_rounds() -> (n: u32)
    ensures
        n == 12,
{
    12
}

pub fn default_tools() -> (out: Vec<String>)
    ensures
        out.deep_view() == roles::reading(),
{
    explore_tools()
}

// ---- which model ----------------------------------------------------------

/// Why a model is not to be had. It names what is.
pub open spec fn not_offered(id: Seq<char>, who: Chose, offered: Seq<Seq<char>>) -> Seq<char> {
    let list = text::joined(offered, ", "@);
    match who {
        Chose::Person => if list.len() == 0 {
            "`"@ + id + "` is not a model this host knows about, and neither is anything else"@
        } else {
            "`"@ + id + "` is not a model this host knows about; it has: "@ + list
        },
        Chose::Model => if list.len() == 0 {
            "`"@ + id + "` is not available to delegate to, and neither is anything else"@
        } else {
            "`"@ + id + "` is not available to delegate to; you may use: "@ + list
        },
    }
}

/// The model a child runs on: none to inherit the conversation's, an error where the
/// named one is not on offer. `offered` holds the ids on offer to whoever chose, and
/// is none where there is no catalog.
pub open spec fn child_model(
    model: Option<Seq<char>>,
    who: Chose,
    offered: Option<Seq<Seq<char>>>,
) -> Result<Option<Seq<char>>, Seq<char>> {
    match effort::given(model) {
        None => Ok(None),
        Some(id) => match offered {
            None => Err(
                "this tree has no model catalog, so `model` cannot be honoured; omit it to run on this conversation's model"@,
            ),
            Some(list) => if list.contains(id) {
                Ok(Some(id))
            } else {
                Err(not_offered(id, who, list))
            },
        },
    }
}

pub open spec fn model_view(r: Result<Option<String>, String>) -> Result<
    Option<Seq<char>>,
    Seq<char>,
> {
    match r {
        Ok(m) => Ok(m.deep_view()),
        Err(e) => Err(e@),
    }
}

pub fn resolve_child_model(model: Option<&str>, who: Chose, offered: &Option<Vec<String>>) -> (r:
    Result<Option<String>, String>)
    ensures
        model_view(r) == child_model(
            match model {
                Some(t) => Some(t@),
                None => None,
            },
            who,
            offered.deep_view(),
        ),
{
    let id = match said(model) {
        Some(id) => id,
        None => return Ok(None),
    };
    match offered {
        None => Err(
            lit(
                "this tree has no model catalog, so `model` cannot be honoured; omit it to run on this conversation's model",
            ),
        ),
        Some(list) => {
            if among(list, id.as_str()) {
                return Ok(Some(id));
            }
            let names = join(list, ", ");
            let nothing = names.as_str().is_empty();
            let e = lit("`").concat(id.as_str());
            Err(
                match who {
                    Chose::Person => {
                        if nothing {
                            e.concat(
                                "` is not a model this host knows about, and neither is anything else",
                            )
                        } else {
                            e.concat("` is not a model this host knows about; it has: ").concat(
                                names.as_str(),
                            )
                        }
                    },
                    Chose::Model => {
                        if nothing {
                            e.concat(
                                "` is not available to delegate to, and neither is anything else",
                            )
                        } else {
                            e.concat("` is not available to delegate to; you may use: ").concat(
                                names.as_str(),
                            )
                        }
                    },
                },
            )
        },
    }
}

/// A named model is never quietly swapped for another: it is run on, or refused.
pub proof fn law_named_or_refused(
    model: Option<Seq<char>>,
    who: Chose,
    offered: Option<Seq<Seq<char>>>,
)
    requires
        effort::given(model) is Some,
    ensures
        match child_model(model, who, offered) {
            Ok(m) => m == effort::given(model) && offered is Some && offered->0.contains(m->0),
            Err(_) => offered matches Some(list) ==> !list.contains(effort::given(model)->0),
        },
{
}

// ---- putting a child together ---------------------------------------------

pub const DEFAULT_INSTRUCTIONS: &'static str = "You are a subagent handling one delegated task. You have a reduced tool set and no ability to change the parent's state. Investigate, do the work the task describes, and finish with a compact report of what you found or changed. Do not ask questions — you have no one to ask.";

/// What a tree needs to run one.
pub const NEEDS: &'static str = "subagents need `agents`, `agent-loop` and `tools`";

/// What a child runs on: the model that was named for it, else the host's delegated
/// one where there is one, else the conversation's.
pub open spec fn runs_on(named: Option<Seq<char>>, delegated: bool) -> ChildModelView {
    match named {
        Some(id) => ChildModelView::Named(id),
        None => if delegated {
            ChildModelView::Delegated
        } else {
            ChildModelView::Inherited
        },
    }
}

pub open spec fn child_plan(
    minted: Seq<char>,
    parent: Option<Seq<char>>,
    allowed: Seq<Seq<char>>,
    mounted: Seq<Seq<char>>,
    task: Seq<char>,
    instructions: Seq<char>,
    named: Option<Seq<char>>,
    delegated: bool,
    effort: Option<ReasoningEffort>,
) -> ChildPlanView {
    ChildPlanView {
        session: "sub-"@ + minted,
        model: runs_on(named, delegated),
        parent,
        tools: team::handed_down(allowed, mounted),
        instructions,
        lane: team::everywhere(),
        effort,
        first: task,
    }
}

/// How a child is put together: of the tools it may use, those that are mounted.
/// `named` is the model found for it, and `delegated` says whether the host keeps one for
/// delegated work.
pub fn plan_child(
    minted: &str,
    parent: Option<String>,
    allowed: &Vec<String>,
    mounted: &Vec<String>,
    task: &str,
    instructions: &str,
    named: Option<String>,
    delegated: bool,
    effort: Option<ReasoningEffort>,
) -> (p: ChildPlan)
    ensures
        p.deep_view() == child_plan(
            minted@,
            parent.deep_view(),
            allowed.deep_view(),
            mounted.deep_view(),
            task@,
            instructions@,
            named.deep_view(),
            delegated,
            effort,
        ),
{
    ChildPlan {
        session: lit("sub-").concat(minted),
        model: match named {
            Some(id) => ChildModel::Named(id),
            None => {
                if delegated {
                    ChildModel::Delegated
                } else {
                    ChildModel::Inherited
                }
            },
        },
        parent,
        tools: hand_down(allowed, mounted),
        instructions: lit(instructions),
        lane: one_of(lit("**")),
        effort,
        first: lit(task),
    }
}

/// What delegating would buy.
pub fn describe(allowed: &Vec<String>, mounted: &Vec<String>) -> (r: String)
    ensures
        r@ == "in-process, isolated realm, tools: "@ + text::joined(
            team::handed_down(allowed.deep_view(), mounted.deep_view()),
            ", "@,
        ),
{
    lit("in-process, isolated realm, tools: ").concat(
        join(&hand_down(allowed, mounted), ", ").as_str(),
    )
}

/// A child can reach no further than its parent was allowed to: every tool it gets is
/// one it may use and one the parent has mounted.
pub proof fn law_a_child_reaches_no_further(
    allowed: Seq<Seq<char>>,
    mounted: Seq<Seq<char>>,
    t: Seq<char>,
)
    ensures
        team::handed_down(allowed, mounted).contains(t) <==> allowed.contains(t)
            && mounted.contains(t),
    decreases allowed.len(),
{
    if allowed.len() > 0 {
        let front = allowed.drop_last();
        law_a_child_reaches_no_further(front, mounted, t);
        let before = team::handed_down(front, mounted);
        let now = team::handed_down(allowed, mounted);
        if now.contains(t) {
            let i = choose|i: int| 0 <= i < now.len() && now[i] == t;
            if i < before.len() {
                assert(before[i] == t);
                assert(front.contains(t));
                let j = choose|j: int| 0 <= j < front.len() && front[j] == t;
                assert(allowed[j] == t);
            } else {
                assert(allowed[allowed.len() - 1] == t);
            }
        }
        if allowed.contains(t) && mounted.contains(t) {
            let j = choose|j: int| 0 <= j < allowed.len() && allowed[j] == t;
            if j < front.len() {
                assert(front[j] == t);
                assert(front.contains(t));
                let i = choose|i: int| 0 <= i < before.len() && before[i] == t;
                assert(now[i] == t);
            } else {
                assert(now[before.len() as int] == t);
            }
        }
    }
}

// ---- what came of it ------------------------------------------------------

pub open spec fn plus(a: u32, b: nat) -> u32 {
    if a + b > u32::MAX {
        u32::MAX
    } else {
        (a + b) as u32
    }
}

/// What a log says of a child's turn: how it ended, what it last said, how many steps
/// and calls it took.
pub open spec fn came_to(events: Seq<LoggedEventView>) -> SubagentOutcomeView
    decreases events.len(),
{
    if events.len() == 0 {
        SubagentOutcomeView {
            text: Seq::empty(),
            rounds: 0,
            tool_calls: 0,
            stop: StopReason::Stopped,
            error: None,
            transcript_len: 0,
        }
    } else {
        let o = came_to(events.drop_last());
        match events.last().event {
            SessionEventView::StepStart { .. } => SubagentOutcomeView {
                rounds: plus(o.rounds, 1),
                ..o
            },
            SessionEventView::AssistantMessage { text, tool_calls, .. } => SubagentOutcomeView {
                tool_calls: plus(o.tool_calls, tool_calls.len()),
                text: if text.len() == 0 {
                    o.text
                } else {
                    text
                },
                ..o
            },
            SessionEventView::TurnEnd { stop, error, .. } => SubagentOutcomeView {
                stop,
                error,
                ..o
            },
            _ => o,
        }
    }
}

/// A turn's outcome, with the length of its log.
pub open spec fn outcome_of(events: Seq<LoggedEventView>) -> SubagentOutcomeView {
    SubagentOutcomeView { transcript_len: events.len() as usize, ..came_to(events) }
}

pub fn turn_outcome(events: &Vec<LoggedEvent>) -> (o: SubagentOutcome)
    ensures
        o.deep_view() == outcome_of(events.deep_view()),
{
    let ghost all = events.deep_view();
    let mut o = SubagentOutcome {
        text: String::new(),
        rounds: 0,
        tool_calls: 0,
        stop: StopReason::Stopped,
        error: None,
        transcript_len: 0,
    };
    let mut i: usize = 0;
    assert(all.take(0) =~= Seq::<LoggedEventView>::empty());
    while i < events.len()
        invariant
            i <= events.len(),
            all == events.deep_view(),
            o.deep_view() == came_to(all.take(i as int)),
        decreases events.len() - i,
    {
        assert(all.take(i + 1).drop_last() =~= all.take(i as int));
        assert(all.take(i + 1).last() == events@[i as int].deep_view());
        match &events[i].event {
            SessionEvent::StepStart { .. } => {
                o.rounds = o.rounds.saturating_add(1);
            },
            SessionEvent::AssistantMessage { text, tool_calls, .. } => {
                let n = tool_calls.len();
                let made: u32 = if n > u32::MAX as usize {
                    u32::MAX
                } else {
                    n as u32
                };
                o.tool_calls = o.tool_calls.saturating_add(made);
                if !text.as_str().is_empty() {
                    o.text = text.clone();
                }
            },
            SessionEvent::TurnEnd { stop, error, .. } => {
                o.stop = *stop;
                o.error = error.clone();
            },
            _ => {},
        }
        i = i + 1;
    }
    assert(all.take(i as int) =~= all);
    o.transcript_len = events.len();
    o
}

// ---- the tool -------------------------------------------------------------
/// How risky it is to delegate with these tools.
pub open spec fn risk_of(allowed: Seq<Seq<char>>) -> RiskLevel {
    if forall|i: int| 0 <= i < allowed.len() ==> roles::reading().contains(#[trigger] allowed[i]) {
        RiskLevel::Safe
    } else {
        RiskLevel::Risky
    }
}

/// Delegating is reading where every tool a child may be handed only reads.
pub fn task_risk(allowed: &Vec<String>) -> (r: RiskLevel)
    ensures
        r == risk_of(allowed.deep_view()),
{
    if all_read(allowed) {
        RiskLevel::Safe
    } else {
        RiskLevel::Risky
    }
}

/// The word when a child starts.
pub fn started(task: &str) -> (r: String)
    ensures
        r@ == "↻ "@ + text::first_line(task@),
{
    lit("↻ ").concat(first_line_of(task).as_str())
}

pub open spec fn ended_word(error: Option<Seq<char>>, stop: StopReason) -> Seq<char> {
    match error {
        Some(e) => "✗ failed · "@ + e,
        None => if stop is Stopped {
            "✓ done"@
        } else {
            "✗ "@ + log::stop_name(stop)
        },
    }
}

/// The word when it ends.
pub fn ended(o: &SubagentOutcome) -> (r: String)
    ensures
        r@ == ended_word(o.deep_view().error, o.stop),
{
    match &o.error {
        Some(e) => lit("✗ failed · ").concat(e.as_str()),
        None => match o.stop {
            StopReason::Stopped => lit("✓ done"),
            stop => lit("✗ ").concat(stop.name()),
        },
    }
}

/// What the call returns: the report, as an error where the child failed.
pub fn task_result(o: &SubagentOutcome, report: String) -> (r: ToolResult)
    ensures
        r.deep_view() == ask::said(report@, o.error is Some),
{
    if o.error.is_some() {
        ask::fail(report)
    } else {
        ask::ok(report)
    }
}

pub open spec fn task_guidance(allowed: Seq<Seq<char>>) -> Seq<char> {
    "`task` delegates a self-contained job to a subagent with a reduced tool set (the ones this tree actually mounts, out of: "@
        + text::joined(allowed, ", "@)
        + "). Use it for work whose intermediate output you do not need to see — a broad read-only sweep, or several independent subtasks at once. Not for a single read or grep you can do here in one call: a lone subagent costs a slow extra model round for no gain. State each task completely, and when several run at once give them non-overlapping scopes — two of them editing one file collide. What comes back is a claim: weigh it, verify what matters."@
}

/// What the model is told about the tool.
pub fn task_prompt(allowed: &Vec<String>) -> (r: String)
    ensures
        r@ == task_guidance(allowed.deep_view()),
{
    lit(
        "`task` delegates a self-contained job to a subagent with a reduced tool set (the ones this tree actually mounts, out of: ",
    ).concat(join(allowed, ", ").as_str()).concat(
        "). Use it for work whose intermediate output you do not need to see — a broad read-only sweep, or several independent subtasks at once. Not for a single read or grep you can do here in one call: a lone subagent costs a slow extra model round for no gain. State each task completely, and when several run at once give them non-overlapping scopes — two of them editing one file collide. What comes back is a claim: weigh it, verify what matters.",
    )
}

// ---- the catalog ----------------------------------------------------------

/// One line in the system prompt. It carries nothing that could move with the catalog.
pub const CATALOG_POINTER: &'static str = "Work can be delegated to a model other than this one, where a delegation tool takes a `model` id. Call `describe_self(aspect=\"models\")` for what is on offer right now — the list changes with logins and model switches, so read it when you need it rather than assuming.";

pub const NOTHING_TO_DELEGATE_TO: &'static str = "MODELS. There is a model catalog but nothing in it to delegate to — not even this conversation's own model, which means the catalog does not contain it. Delegated work runs on this conversation's model.";

pub const MODELS_HEAD: &'static str = "MODELS. What delegated work may run on. A delegation tool whose description says it takes a `model` id takes one of these; leaving it out keeps the conversation's own model.\n\n";

pub const MODELS_FOOT: &'static str = "\n\nModels billed to another account are never here. That is a decision about credentials and vendors rather than cost, so a cheaper model on another account is still absent — and it is the person's to make, not yours.";

pub const RANKED: &'static str = "Ordered weakest first where the deployment says so. Anything more capable than this conversation is deliberately absent: choosing to spend more is the person's decision, made when they picked this model.";

pub const UNRANKED: &'static str = "This deployment has not said which of these is more capable, so they are not ordered and none is known to be cheaper. Pick on the facts above — context window, vision, and whatever note the deployment wrote — not on the name.";

pub open spec fn model_line(m: ModelInfoView, current: Option<Seq<char>>) -> Seq<char> {
    "  "@ + m.id + (if current == Some(m.id) {
        " (this conversation)"@
    } else {
        Seq::empty()
    }) + " — "@ + m.display_name + ", ctx "@ + text::decimal(m.context_window as nat) + (
    if m.supports_vision {
        ", vision"@
    } else {
        Seq::empty()
    }) + (if m.effort_levels.len() == 0 {
        Seq::empty()
    } else {
        ", effort "@ + text::joined(m.effort_levels, "/"@)
    }) + (match m.note {
        Some(note) => "\n      "@ + note,
        None => Seq::empty(),
    })
}

pub open spec fn model_lines(offered: Seq<ModelInfoView>, current: Option<Seq<char>>) -> Seq<
    Seq<char>,
> {
    Seq::new(offered.len(), |i: int| model_line(offered[i], current))
}

pub open spec fn any_ranked(offered: Seq<ModelInfoView>) -> bool {
    exists|i: int| 0 <= i < offered.len() && (#[trigger] offered[i]).capable_rank is Some
}

/// The catalog as the agent reads it.
pub open spec fn catalog_text(offered: Seq<ModelInfoView>, current: Option<Seq<char>>) -> Seq<char> {
    if offered.len() == 0 {
        NOTHING_TO_DELEGATE_TO@
    } else {
        MODELS_HEAD@ + text::joined(model_lines(offered, current), "\n"@) + "\n\n"@ + (
        if any_ranked(offered) {
            RANKED@
        } else {
            UNRANKED@
        }) + MODELS_FOOT@
    }
}

fn write_line(m: &ModelInfo, current: &Option<String>) -> (r: String)
    ensures
        r@ == model_line(m.deep_view(), current.deep_view()),
{
    let here = match current {
        Some(c) => {
            if same(c.as_str(), m.id.as_str()) {
                lit(" (this conversation)")
            } else {
                String::new()
            }
        },
        None => String::new(),
    };
    let vision = if m.supports_vision {
        lit(", vision")
    } else {
        String::new()
    };
    let effort = if m.effort_levels.len() == 0 {
        String::new()
    } else {
        lit(", effort ").concat(join(&m.effort_levels, "/").as_str())
    };
    let note = match &m.note {
        Some(note) => lit("\n      ").concat(note.as_str()),
        None => String::new(),
    };
    lit("  ").concat(m.id.as_str()).concat(here.as_str()).concat(" — ").concat(
        m.display_name.as_str(),
    ).concat(", ctx ").concat(number(m.context_window as u64).as_str()).concat(
        vision.as_str(),
    ).concat(effort.as_str()).concat(note.as_str())
}

/// The catalog as the agent reads it, at the moment of asking.
pub fn describe_catalog(offered: &Vec<ModelInfo>, current: &Option<String>) -> (r: String)
    ensures
        r@ == catalog_text(offered.deep_view(), current.deep_view()),
{
    if offered.len() == 0 {
        return lit(NOTHING_TO_DELEGATE_TO);
    }
    let ghost ov = offered.deep_view();
    let ghost all = model_lines(ov, current.deep_view());
    let mut out: Vec<String> = none_of();
    let mut ranked = false;
    let mut i: usize = 0;
    assert(out.deep_view() =~= all.take(0));
    while i < offered.len()
        invariant
            i <= offered.len(),
            ov == offered.deep_view(),
            all == model_lines(ov, current.deep_view()),
            out.deep_view() == all.take(i as int),
            ranked == (exists|k: int| 0 <= k < i && (#[trigger] ov[k]).capable_rank is Some),
        decreases offered.len() - i,
    {
        assert(ov[i as int] == offered@[i as int].deep_view());
        put(&mut out, write_line(&offered[i], current));
        assert(out.deep_view() =~= all.take(i + 1));
        if offered[i].capable_rank.is_some() {
            assert(ov[i as int].capable_rank is Some);
            ranked = true;
        } else {
            assert(ov[i as int].capable_rank is None);
        }
        i = i + 1;
    }
    assert(all.take(i as int) =~= all);
    let why = if ranked {
        RANKED
    } else {
        UNRANKED
    };
    lit(MODELS_HEAD).concat(join(&out, "\n").as_str()).concat("\n\n").concat(why).concat(
        MODELS_FOOT,
    )
}

/// The pointer to the catalog, where the catalog offers a choice at all. It reads the
/// same whatever the catalog holds.
pub fn catalog_pointer(offered: usize) -> (r: Option<&'static str>)
    ensures
        match r {
            Some(p) => offered >= 2 && p@ == CATALOG_POINTER@,
            None => offered < 2,
        },
{
    if offered < 2 {
        None
    } else {
        Some(CATALOG_POINTER)
    }
}

// ---- what the model is told ------------------------------------------------

/// What `task` is for.
pub const DESCRIPTION: &'static str = "Delegate a self-contained task to a subagent with its own reduced tool set. Use it for work that would otherwise flood this conversation with intermediate output — a broad search, a survey of unfamiliar code. The subagent cannot ask you questions, so state the task completely.";

/// The arguments of `task`, as JSON Schema.
pub const SCHEMA: &'static str = "{\"properties\":{\"effort\":{\"description\":\"How hard the subagent should think, for a model that takes the knob — the levels each model accepts are in `describe_self(aspect=\\\"models\\\")`. Omit to leave this conversation's setting in charge.\",\"type\":\"string\"},\"instructions\":{\"description\":\"Extra standing instructions for the subagent\",\"type\":\"string\"},\"model\":{\"description\":\"Run this subagent on a different model: a selection id from `describe_self(aspect=\\\"models\\\")`. Omit to use this conversation's model.\",\"type\":\"string\"},\"task\":{\"description\":\"The complete task, stated so it needs no follow-up\",\"type\":\"string\"}},\"required\":[\"task\"],\"type\":\"object\"}";

/// The refusal where nobody can run a child.
pub const NO_PROVIDER: &'static str = "no `subagents` provider is mounted";

} // verus!

//! Rules, plan mode, interactive approval, and what a turn costs.
use crate::asking;
use crate::asking::{
    grantable, make_key, weigh, Decision, DecisionView, Gate, GateView, Weighed, WeighedView,
    ANSWER_ALLOW, ANSWER_ALWAYS,
};
use crate::data::Dup;
use crate::events::{Question, QuestionView, StopReason};
use crate::json;
use crate::json::{quote, quote_or_null};
use crate::policy;
use crate::policy::{refuse, Authorization, Passage, PassageView};
use crate::log;
use crate::table::Names;
use crate::text;
use crate::text::{join, lit, number, same};
use crate::turn::{TurnOutcome, TurnOutcomeView, TurnProgress};
use vstd::prelude::*;

verus! {

/// What the permission rules say of a call.
#[derive(Clone, Copy, Debug, PartialEq, Eq, Structural)]
pub enum RuleDecision {
    Deny,
    Allow,
    NoMatch,
}

impl DeepView for RuleDecision {
    type V = RuleDecision;

    open spec fn deep_view(&self) -> RuleDecision {
        *self
    }
}

impl Dup for RuleDecision {
    fn dup(&self) -> (r: Self) {
        *self
    }
}

/// What interactive approval comes to before anyone is asked.
#[derive(Debug, PartialEq, Eq)]
pub enum Approval {
    Settled { decision: Decision },
    Ask { question: Question },
}

/// What a [`Approval`] holds.
#[verifier::ext_equal]
pub enum ApprovalView {
    Settled { decision: DecisionView },
    Ask { question: QuestionView },
}

impl DeepView for Approval {
    type V = ApprovalView;

    open spec fn deep_view(&self) -> ApprovalView {
        match self {
            Approval::Settled { decision } => ApprovalView::Settled {
                decision: decision.deep_view(),
            },
            Approval::Ask { question } => ApprovalView::Ask {
                question: question.deep_view(),
            },
        }
    }
}

impl Dup for Approval {
    fn dup(&self) -> (r: Self) {
        match self {
            Approval::Settled { decision } => Approval::Settled {
                decision: decision.dup(),
            },
            Approval::Ask { question } => Approval::Ask {
                question: question.dup(),
            },
        }
    }
}

impl Clone for Approval {
    fn clone(&self) -> (r: Self)
        ensures
            r.deep_view() == self.deep_view(),
    {
        self.dup()
    }
}

// ---- permission rules -----------------------------------------------------

/// A deny rule refuses; an allow rule settles the question without ending the way, so
/// a boundary further down still stops the call.
pub open spec fn permitted(d: RuleDecision, name: Seq<char>, call_id: Seq<char>, a: Authorization) -> (
    PassageView,
    Authorization,
) {
    match d {
        RuleDecision::Deny => (
            policy::refusal(call_id, "`"@ + name + "` is denied by a `[permissions] deny` rule"@),
            a,
        ),
        RuleDecision::Allow => (PassageView::Run, Authorization::Presumed),
        RuleDecision::NoMatch => (PassageView::Run, a),
    }
}

pub fn permission_gate(d: RuleDecision, name: &str, call_id: &str, a: Authorization) -> (r: (
    Passage,
    Authorization,
))
    ensures
        (r.0.deep_view(), r.1) == permitted(d, name@, call_id@, a),
{
    match d {
        RuleDecision::Deny => {
            let why = lit("`").concat(name).concat("` is denied by a `[permissions] deny` rule");
            (refuse(call_id, why.as_str()), a)
        },
        RuleDecision::Allow => (Passage::Run, Authorization::Presumed),
        RuleDecision::NoMatch => (Passage::Run, a),
    }
}

/// A rule never answers for the person: what only a person may lift, no rule lifts.
pub proof fn law_rules_do_not_speak_for_the_person(
    d: RuleDecision,
    name: Seq<char>,
    call_id: Seq<char>,
    a: Authorization,
)
    requires
        !(a is Person),
    ensures
        !(permitted(d, name, call_id, a).1 is Person),
{
}

/// A rule that does not parse would silently permit, so the row fails instead. Whether
/// there is any rule to enforce otherwise.
pub fn check_rules(bad: &Vec<String>, rules_empty: bool) -> (r: Result<bool, String>)
    ensures
        if bad.deep_view().len() > 0 {
            r matches Err(e) && e@ == "unparseable permission rules: "@ + text::joined(
                bad.deep_view(),
                ", "@,
            )
        } else {
            r == Ok::<bool, String>(!rules_empty)
        },
{
    if bad.len() > 0 {
        Err(lit("unparseable permission rules: ").concat(join(bad, ", ").as_str()))
    } else {
        Ok(!rules_empty)
    }
}

// ---- plan mode ------------------------------------------------------------

pub const PLAN_REFUSAL: &'static str = "` cannot run. Finish investigating with read-only tools and present a plan for approval.";

pub const PLAN_PROMPT: &'static str = "PLAN MODE IS ACTIVE. Investigate with read-only tools only, then present a concrete plan and stop. Do not edit files, run mutating commands, or ask to proceed — the user will decide.";

/// Every tool that can change something is refused. `read_only` is what the tool says
/// of itself; nothing where it is not mounted.
pub open spec fn planned(read_only: Option<bool>, name: Seq<char>, call_id: Seq<char>) -> PassageView {
    if read_only == Some(true) {
        PassageView::Run
    } else {
        policy::refusal(call_id, "plan mode is active, so `"@ + name + PLAN_REFUSAL@)
    }
}

pub fn plan_gate(read_only: Option<bool>, name: &str, call_id: &str) -> (p: Passage)
    ensures
        p.deep_view() == planned(read_only, name@, call_id@),
{
    match read_only {
        Some(true) => Passage::Run,
        _ => {
            let why = lit("plan mode is active, so `").concat(name).concat(PLAN_REFUSAL);
            refuse(call_id, why.as_str())
        },
    }
}

// ---- interactive approval -------------------------------------------------

/// Approval that asks a person, and remembers what they said yes to always.
pub struct AskingPolicy {
    granted: Names,
}

/// Before anyone is asked: a safe or remembered call runs, and with nobody to ask a
/// risky one is refused.
pub open spec fn approached(g: GateView, remembered: bool, can_ask: bool) -> ApprovalView {
    match asking::weighed(g, remembered) {
        WeighedView::Allow => ApprovalView::Settled { decision: DecisionView::Allow },
        WeighedView::Ask { question, .. } => if can_ask {
            ApprovalView::Ask { question }
        } else {
            ApprovalView::Settled {
                decision: DecisionView::Deny("no way to ask for approval"@),
            }
        },
    }
}

/// Consent is only ever one of the words that were offered for it: "always" is not,
/// where nothing may be remembered.
pub open spec fn consents(answer: Option<Seq<char>>, grantable: bool) -> bool {
    answer == Some(ANSWER_ALLOW@) || (answer == Some(ANSWER_ALWAYS@) && grantable)
}

pub open spec fn answered(answer: Option<Seq<char>>, grantable: bool) -> DecisionView {
    if consents(answer, grantable) {
        DecisionView::Allow
    } else {
        DecisionView::Deny("the user declined"@)
    }
}

/// What is remembered once the person answered.
pub open spec fn granted(
    grants: Set<Seq<char>>,
    g: GateView,
    answer: Option<Seq<char>>,
) -> Set<Seq<char>> {
    if answer == Some(ANSWER_ALWAYS@) && asking::is_grantable(g.scope) {
        grants.insert(asking::grant_key(g.tool, g.scope))
    } else {
        grants
    }
}

impl AskingPolicy {
    pub closed spec fn grants(&self) -> Set<Seq<char>> {
        self.granted@
    }

    pub fn new() -> (p: Self)
        ensures
            p.grants() == Set::<Seq<char>>::empty(),
    {
        AskingPolicy { granted: Names::new() }
    }

    /// What the approval comes to before anyone is asked.
    pub fn approach(&self, g: &Gate, can_ask: bool) -> (r: Approval)
        ensures
            r.deep_view() == approached(
                g.deep_view(),
                self.grants().contains(asking::grant_key(g.tool@, g.scope@)),
                can_ask,
            ),
    {
        let key = make_key(g.tool.as_str(), g.scope.as_str());
        match weigh(g, self.granted.contains(key.as_str())) {
            Weighed::Allow => Approval::Settled { decision: Decision::Allow },
            Weighed::Ask { question, .. } => {
                if can_ask {
                    Approval::Ask { question }
                } else {
                    Approval::Settled { decision: Decision::Deny(lit("no way to ask for approval")) }
                }
            },
        }
    }

    /// What the person's answer decides. An "always" is remembered, and refused where
    /// it was not offered.
    pub fn settle(&mut self, g: &Gate, answer: Option<String>) -> (d: Decision)
        ensures
            d.deep_view() == answered(answer.deep_view(), asking::is_grantable(g.scope@)),
            final(self).grants() == granted(old(self).grants(), g.deep_view(), answer.deep_view()),
    {
        match answer {
            Some(word) => {
                if same(word.as_str(), ANSWER_ALWAYS) && grantable(g.scope.as_str()) {
                    let _ = self.granted.insert(make_key(g.tool.as_str(), g.scope.as_str()));
                    Decision::Allow
                } else if same(word.as_str(), ANSWER_ALLOW) {
                    Decision::Allow
                } else {
                    Decision::Deny(lit("the user declined"))
                }
            },
            None => Decision::Deny(lit("the user declined")),
        }
    }
}

/// Silence is a refusal, and so is a tree with nobody to ask.
pub proof fn law_silence_refuses(g: GateView)
    requires
        g.risk is Risky,
    ensures
        answered(None, asking::is_grantable(g.scope)) is Deny,
        approached(g, false, false) == (ApprovalView::Settled {
            decision: DecisionView::Deny("no way to ask for approval"@),
        }),
{
}

// ---- cost -----------------------------------------------------------------

/// A cost ceiling; zero is none.
pub open spec fn over_budget(max_prompt_tokens: u32, used: u32) -> bool {
    max_prompt_tokens > 0 && used >= max_prompt_tokens
}

pub fn token_budget(max_prompt_tokens: u32, progress: &TurnProgress) -> (stop: Option<StopReason>)
    ensures
        stop == (if over_budget(max_prompt_tokens, progress.used_tokens) {
            Some(StopReason::StoppedByPolicy)
        } else {
            None
        }),
{
    if max_prompt_tokens > 0 && progress.used_tokens >= max_prompt_tokens {
        Some(StopReason::StoppedByPolicy)
    } else {
        None
    }
}

/// One metrics line for a turn, as JSON. `tokens` is the token totals as JSON text.
pub open spec fn metrics(
    o: TurnOutcomeView,
    session: Seq<char>,
    elapsed_ms: u64,
    tokens: Seq<char>,
) -> Seq<char> {
    "{\"elapsed_ms\":"@ + text::decimal(elapsed_ms as nat) + ",\"error\":"@
        + json::quoted_or_null(o.error) + ",\"rounds\":"@ + text::decimal(o.rounds as nat)
        + ",\"session\":"@ + json::quoted(session) + ",\"stop\":"@ + json::quoted(
        log::stop_name(o.stop),
    ) + ",\"tokens\":"@ + tokens + ",\"tool_calls\":"@ + text::decimal(o.tool_calls as nat)
        + ",\"turn\":"@ + text::decimal(o.turn as nat) + "}\n"@
}

pub fn telemetry_line(o: &TurnOutcome, session: &str, elapsed_ms: u64, tokens: &str) -> (r: String)
    ensures
        r@ == metrics(o.deep_view(), session@, elapsed_ms, tokens@),
{
    lit("{\"elapsed_ms\":").concat(number(elapsed_ms).as_str()).concat(",\"error\":").concat(
        quote_or_null(&o.error).as_str(),
    ).concat(",\"rounds\":").concat(number(o.rounds as u64).as_str()).concat(
        ",\"session\":",
    ).concat(quote(session).as_str()).concat(",\"stop\":").concat(
        quote(o.stop.name()).as_str(),
    ).concat(",\"tokens\":").concat(tokens).concat(",\"tool_calls\":").concat(
        number(o.tool_calls as u64).as_str(),
    ).concat(",\"turn\":").concat(number(o.turn).as_str()).concat("}\n")
}

/// What the model is told about keeping a list.
pub const TODO_PROMPT: &'static str = "Use `todowrite` to plan multi-step work: add one todo per concrete step before you start, and mark each completed as soon as it is done. Call it FIRST when a task has multiple requests, phases, files, dependencies, ambiguity, or needs investigation followed by changes, and make the initial list cover the WHOLE request — investigation, design, implementation, verification — not only the next action. Each item names a concrete outcome a later turn can execute without re-planning (`add retry to fetch_user`, not `fix networking`; never `task 1` or `step 2`). Then keep it current ONE item at a time rather than resending the list: `todowrite {\"action\":\"update\",\"id\":N,\"status\":\"in_progress\"}` when you start #N, and `completed` the moment it is actually verified — never on intent, and never batch-completing several at the end. Keep exactly one item in_progress. The list is there to show where the work actually stands, so keep it true: if the plan changed and an item is no longer part of the task, replace or drop it rather than leaving it open. Do not declare done or hand back while an item is still open and still wanted — finish it, or say plainly which are open and why (blocked, needing a decision, ambiguous, or no longer wanted). If the user pivots to unrelated multi-step work, call it with the new full list to REPLACE the old one instead of carrying stale items forward. Not for a single quick edit, a one-off command, or a purely informational reply.";

/// Who answers where nobody does.
pub const UNATTENDED: &'static str = "unattended (every question is declined)";

} // verus!

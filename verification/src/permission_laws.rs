//! Who may do what: nothing risky runs that nobody said yes to, and whoever is refused
//! is told why.
use crate::asking;
use crate::asking::{
    DecisionView, GateView, Permission, RiskLevel, WeighedView, ANSWER_ALLOW, ANSWER_ALWAYS,
    ANSWER_DENY, NEVER_GRANT,
};
use crate::policy;
use crate::policy::{AsRiskyView, Authorization, PassageView, RulePolicyView};
use crate::policy_rows;
use crate::policy_rows::{ApprovalView, RuleDecision};
use crate::text;
use vstd::prelude::*;

verus! {

/// A passage that lets a call through, or a refusal of that call that says why.
pub open spec fn runs_or_says_why(
    p: PassageView,
    runs: bool,
    call_id: Seq<char>,
    why: Seq<char>,
) -> bool {
    match p {
        PassageView::Run => runs,
        PassageView::Refuse { result } => {
            &&& !runs
            &&& result.is_error
            &&& result.call_id == call_id
            &&& text::holds(result.content, why)
        },
    }
}

proof fn lemma_refusal(call_id: Seq<char>, why: Seq<char>, part: Seq<char>, at: int)
    requires
        0 <= at,
        at + part.len() <= why.len(),
        why.subrange(at, at + part.len()) == part,
    ensures
        runs_or_says_why(policy::refusal(call_id, why), false, call_id, part),
{
    let n = "Refused: "@.len() as int;
    let all = "Refused: "@ + why;
    assert(all.subrange(n + at, n + at + part.len()) =~= why.subrange(at, at + part.len()));
}

/// A rule runs a call exactly where it is not denied and is allowed by name, or by a
/// mode that lets calls of its kind run; else the decision names the tool.
pub proof fn law_rules_let_through_what_they_say(
    p: RulePolicyView,
    name: Seq<char>,
    risk: RiskLevel,
    read_only: bool,
)
    ensures
        policy::ruled(p, name, risk, read_only) is Allow <==> !p.deny.contains(name) && {
            ||| p.allow.contains(name)
            ||| p.mode is Yolo
            ||| p.mode is DenyRisky && risk is Safe
            ||| p.mode is ReadOnly && read_only
        },
        policy::ruled(p, name, risk, read_only) matches DecisionView::Deny(why) ==> text::holds(
            why,
            name,
        ),
{
    match policy::ruled(p, name, risk, read_only) {
        DecisionView::Deny(why) => {
            assert(why.subrange("`"@.len() as int, ("`"@.len() + name.len()) as int) =~= name);
        },
        _ => {},
    }
}

/// A call a policy allowed runs, and one it denied comes back as a failed result of that
/// call, with the reason.
pub proof fn law_a_denied_call_is_answered(d: DecisionView, call_id: Seq<char>)
    ensures
        runs_or_says_why(
            policy::gated(d, call_id),
            d is Allow,
            call_id,
            match d {
                DecisionView::Deny(reason) => reason,
                DecisionView::Allow => Seq::empty(),
            },
        ),
        runs_or_says_why(
            policy::let_past(d, call_id),
            d is Allow,
            call_id,
            match d {
                DecisionView::Deny(reason) => reason,
                DecisionView::Allow => Seq::empty(),
            },
        ),
{
    match d {
        DecisionView::Deny(reason) => {
            assert(reason.subrange(0, reason.len() as int) =~= reason);
            lemma_refusal(call_id, reason, reason, 0);
            let head = "the arguments name a sensitive path (credentials, keys, `.env`) and "@;
            let why = head + reason;
            assert(why.subrange(head.len() as int, (head.len() + reason.len()) as int) =~= reason);
            lemma_refusal(call_id, why, reason, head.len() as int);
        },
        DecisionView::Allow => {},
    }
}

/// A call somebody settled is not asked about again; one nobody settled is, wherever
/// there is a policy to ask and the tool is there.
pub proof fn law_an_unsettled_call_is_asked_about(has_policy: bool, tool_known: bool)
    ensures
        policy::unsettled(Authorization::No, true, true),
        !policy::unsettled(Authorization::Presumed, has_policy, tool_known),
        !policy::unsettled(Authorization::Person, has_policy, tool_known),
        !policy::unsettled(Authorization::No, false, tool_known),
        !policy::unsettled(Authorization::No, has_policy, false),
{
}

/// A credential is asked about although the tool that reads it is safe, and although it
/// lies in the workspace: only the person can settle it.
pub proof fn law_a_credential_is_asked_about(a: Authorization, inside: bool, risk: RiskLevel)
    ensures
        policy::guarded(policy::presumed(a, inside), true, true, RiskLevel::Safe, true)
            <==> !(a is Person),
        !policy::guarded(a, true, true, risk, false),
        !policy::guarded(a, true, true, RiskLevel::Risky, true),
{
}

/// Being inside the workspace settles what nobody else settled, never speaks for the
/// person, and outside of it nothing is settled.
pub proof fn law_the_workspace_presumes(a: Authorization)
    ensures
        policy::presumed(a, false) == a,
        a is No ==> policy::presumed(a, true) is Presumed,
        !(a is No) ==> policy::presumed(a, true) == a,
{
}

/// A delegated agent never gets a shell or agents of its own, never touches a credential
/// and never writes outside its lane; whatever else it does runs, and whoever drives the
/// agent itself is not held to that.
pub proof fn law_delegated_agents_are_bounded(
    delegated: bool,
    name: Seq<char>,
    call_id: Seq<char>,
    sensitive: bool,
    violation: Option<Seq<char>>,
)
    ensures
        policy::bounded(delegated, name, call_id, sensitive, violation) is Run <==> !delegated || {
            &&& name != "bash"@ && name != "team"@ && name != "task"@
            &&& !sensitive
            &&& violation is None
        },
        policy::bounded(delegated, name, call_id, sensitive, violation) matches
            PassageView::Refuse { result } ==> result.is_error && result.call_id == call_id,
        policy::is_delegated(true, false) && policy::is_delegated(false, true)
            && !policy::is_delegated(false, false),
{
}

/// What a delegated agent may write is its lane.
pub proof fn law_the_lane_is_the_bound(lane: Seq<Seq<char>>)
    ensures
        policy::scopes_of(Some(lane)) == lane,
        policy::scopes_of(None).len() == 1,
{
}

/// A tool presented as risky is remembered under what it says, under what the tool
/// itself says where it says nothing, and never where it may not be.
pub proof fn law_a_presented_scope_stands(r: AsRiskyView, inner: Seq<char>)
    ensures
        !r.grantable ==> !asking::is_grantable(policy::grant_scope(r, inner)),
        r.grantable && r.scope is Some ==> policy::grant_scope(r, inner) == r.scope->0,
        r.grantable && r.scope is None ==> policy::grant_scope(r, inner) == inner,
{
}

/// A result over the limit keeps its beginning and its end, says how long it was, and is
/// otherwise left alone.
pub proof fn law_a_long_result_keeps_both_ends(content: Seq<char>, max_bytes: usize, k: int)
    requires
        max_bytes > 0,
        policy::byte_len(content) > max_bytes,
        0 <= k <= max_bytes as int / 2,
        k <= content.len(),
    ensures
        ({
            let r = policy::capped(content, max_bytes);
            &&& r.len() >= 2 * k
            &&& r.take(k) == content.take(k)
            &&& r.skip(r.len() - k) == content.skip(content.len() - k)
            &&& text::holds(r, text::decimal(policy::byte_len(content) as nat))
        }),
        policy::capped(content, 0) == content,
{
    let keep = max_bytes as int / 2;
    let a = text::leading(content, keep);
    let note = policy::cap_note(policy::byte_len(content) as nat);
    let b = text::trailing(content, keep);
    let r = policy::capped(content, max_bytes);
    assert(r == a + note + b);
    assert(r.take(k) =~= content.take(k));
    assert(r.skip(r.len() - k) =~= content.skip(content.len() - k));
    let n = text::decimal(policy::byte_len(content) as nat);
    let at = a.len() + "\n\n[... "@.len();
    assert(r.subrange(at as int, (at + n.len()) as int) =~= n);
}

/// A rule that denies refuses, one that allows settles the call, and where none speaks
/// the call is as it was.
pub proof fn law_a_rule_does_what_it_says(
    d: RuleDecision,
    name: Seq<char>,
    call_id: Seq<char>,
    a: Authorization,
)
    ensures
        ({
            let (p, b) = policy_rows::permitted(d, name, call_id, a);
            &&& runs_or_says_why(p, !(d is Deny), call_id, name)
            &&& d is Allow ==> !policy::unsettled(b, true, true)
            &&& !(d is Allow) ==> b == a
        }),
{
    let why = "`"@ + name + "` is denied by a `[permissions] deny` rule"@;
    let n = "`"@.len() as int;
    assert(why.subrange(n, n + name.len()) =~= name);
    lemma_refusal(call_id, why, name, n);
}

/// While a plan is made nothing runs but what is known to only read.
pub proof fn law_a_plan_only_reads(read_only: Option<bool>, name: Seq<char>, call_id: Seq<char>)
    ensures
        runs_or_says_why(
            policy_rows::planned(read_only, name, call_id),
            read_only == Some(true),
            call_id,
            name,
        ),
{
    let head = "plan mode is active, so `"@;
    let why = head + name + policy_rows::PLAN_REFUSAL@;
    assert(why.subrange(head.len() as int, (head.len() + name.len()) as int) =~= name);
    lemma_refusal(call_id, why, name, head.len() as int);
}

/// Nothing risky runs unasked: it runs only where it was granted before, or the person
/// says yes now. What it is asked about is that call, and "always" is offered exactly
/// where it will be remembered.
pub proof fn law_nothing_risky_runs_unasked(g: GateView, remembered: bool, answer: Option<Permission>)
    requires
        g.risk is Risky,
    ensures
        asking::weighed(g, remembered) is Allow <==> remembered && g.scope != NEVER_GRANT@,
        asking::weighed(g, remembered) matches WeighedView::Ask { question, key, grantable } ==> {
            let values = Seq::new(question.options.len(), |i: int| question.options[i].value);
            &&& question.asker == g.asker
            &&& question.about matches Some(about) && about.tool == g.tool && about.arguments
                == g.arguments && (about.grant == if g.scope == NEVER_GRANT@ {
                None
            } else {
                Some(g.scope)
            })
            &&& text::holds(question.prompt, g.tool)
            &&& values.contains(ANSWER_ALLOW@) && values.contains(ANSWER_DENY@)
            &&& g.scope != NEVER_GRANT@ ==> values.contains(ANSWER_ALWAYS@)
            &&& grantable == (g.scope != NEVER_GRANT@)
            &&& values.len() == (if grantable {
                3int
            } else {
                2int
            })
            &&& key == asking::grant_key(g.tool, g.scope)
        },
        asking::decided(asking::permission_of(answer), g.tool) is Allow <==> answer == Some(
            Permission::AllowOnce,
        ) || answer == Some(Permission::AllowAlways),
        asking::decided(asking::permission_of(answer), g.tool) matches DecisionView::Deny(why)
            ==> text::holds(why, g.tool),
{
    match asking::weighed(g, remembered) {
        WeighedView::Ask { question, .. } => {
            let values = Seq::new(question.options.len(), |i: int| question.options[i].value);
            let n = "Allow `"@.len() as int;
            assert(question.prompt.subrange(n, n + g.tool.len()) =~= g.tool);
            assert(values[0] == ANSWER_ALLOW@);
            assert(values[values.len() - 1] == ANSWER_DENY@);
            if g.scope != NEVER_GRANT@ {
                assert(values[1] == ANSWER_ALWAYS@);
            }
        },
        _ => {},
    }
    match asking::decided(asking::permission_of(answer), g.tool) {
        DecisionView::Deny(why) => {
            let n = "`"@.len() as int;
            assert(why.subrange(n, n + g.tool.len()) =~= g.tool);
        },
        _ => {},
    }
}

/// A grant is for its tool and its scope: what is granted to one is not granted to
/// another, as long as tools go by names without a colon.
pub proof fn law_a_grant_is_for_its_tool(
    tool: Seq<char>,
    scope: Seq<char>,
    other: Seq<char>,
    elsewhere: Seq<char>,
)
    requires
        !tool.contains(':'),
        !other.contains(':'),
        asking::grant_key(tool, scope) == asking::grant_key(other, elsewhere),
    ensures
        tool == other,
        scope == elsewhere,
{
    reveal_strlit("::");
    let a = asking::grant_key(tool, scope);
    let b = asking::grant_key(other, elsewhere);
    if tool.len() < other.len() {
        assert(a[tool.len() as int] == ':');
        assert(b[tool.len() as int] == other[tool.len() as int]);
        assert(other.contains(other[tool.len() as int]));
    } else if other.len() < tool.len() {
        assert(b[other.len() as int] == ':');
        assert(a[other.len() as int] == tool[other.len() as int]);
        assert(tool.contains(tool[other.len() as int]));
    }
    assert(tool =~= a.take(tool.len() as int));
    assert(other =~= b.take(tool.len() as int));
    assert(scope =~= a.skip(tool.len() as int + 2));
    assert(elsewhere =~= b.skip(tool.len() as int + 2));
}

/// A person who is asked through questions decides by the words offered: "allow" and,
/// where it may be remembered, "always"; anything else, silence included, refuses. An
/// "always" is remembered for that tool and scope, and nothing else ever is.
pub proof fn law_only_the_offered_words_consent(
    g: GateView,
    answer: Option<Seq<char>>,
    grants: Set<Seq<char>>,
    key: Seq<char>,
)
    requires
        g.risk is Risky,
    ensures
        ({
            let grantable = g.scope != NEVER_GRANT@;
            let after = policy_rows::granted(grants, g, answer);
            &&& policy_rows::answered(answer, grantable) is Allow <==> answer == Some(
                ANSWER_ALLOW@,
            ) || (answer == Some(ANSWER_ALWAYS@) && grantable)
            &&& after.contains(key) <==> grants.contains(key) || (answer == Some(ANSWER_ALWAYS@)
                && grantable && key == asking::grant_key(g.tool, g.scope))
            &&& answer == Some(ANSWER_ALWAYS@) && grantable ==> policy_rows::approached(
                g,
                after.contains(asking::grant_key(g.tool, g.scope)),
                true,
            ) == (ApprovalView::Settled { decision: DecisionView::Allow })
            &&& !grantable ==> policy_rows::approached(g, true, true) is Ask
            &&& policy_rows::approached(g, false, true) is Ask
        }),
{
}

/// A ceiling stops a turn once it is reached and not before; zero is none.
pub proof fn law_a_ceiling_is_reached_once(max: u32, used: u32, more: u32)
    ensures
        !policy_rows::over_budget(0, used),
        max > 0 ==> policy_rows::over_budget(max, max),
        used < max ==> !policy_rows::over_budget(max, used),
        policy_rows::over_budget(max, used) && more >= used ==> policy_rows::over_budget(max, more),
{
}

} // verus!

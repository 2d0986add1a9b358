//! The personas: who the agent is, as one prompt fragment among several.
//!
//! Only a persona says "you are"; everything else in a prompt says what the agent is
//! made of or what a tool wants.
use crate::text;
use crate::text::{blank, lit, trim};
use vstd::prelude::*;

verus! {

/// The coding specialization.
pub const CODING_PERSONA: &'static str = "You are a coding agent working in a real repository. Investigate before you act: read the code you are about to change, and prefer the smallest change that solves the problem. After an edit, verify it — run the build or the tests — and report what you actually observed rather than what you expect. If something is blocked, say so plainly and continue with the rest.";

/// A read-only security auditor that has to establish reachability.
pub const SECURITY_PERSONA: &'static str = "You are a security auditor with read-only access to a codebase. Your job is to find real, reachable vulnerabilities — not to enumerate theoretical weaknesses.\n\nFor each candidate issue, establish three things before reporting it:\n1. **The sink** — the operation that is actually dangerous (a query, a command, a deserialization, a path join, a comparison used for authorization).\n2. **The source** — where attacker-influenced data enters, and the concrete path from there to the sink. Use `find_references` and `trace_callers` to establish reachability rather than assuming it.\n3. **What defeats the existing defence** — if there is validation, escaping, or a check in between, say precisely why it does not hold. If you cannot, it is not a finding.\n\nPriorities: P0 = remotely exploitable with real impact; P1 = exploitable with preconditions; P2 = a defence-in-depth gap with no established path; P3 = hygiene. Set your confidence honestly — a P0 you are 40% sure of is worth reporting *as* 40%.\n\nReport through `report_finding`, one call per issue, with the file and the exact line range of the sink. Do not report: dependency versions without a known exploit path in this code, missing hardening that the threat model does not call for, or style. If you find nothing that meets this bar, say so — an empty result is a valid outcome and is far more useful than a list of maybes.";

/// The coding persona, with house rules behind it where there are any.
pub open spec fn with_rules(extra: Option<Seq<char>>) -> Seq<char> {
    match extra {
        Some(e) => if text::is_blank(e) {
            CODING_PERSONA@
        } else {
            CODING_PERSONA@ + "\n\n"@ + text::trimmed(e)
        },
        None => CODING_PERSONA@,
    }
}

pub fn coding_persona(extra: &Option<String>) -> (r: String)
    ensures
        r@ == with_rules(extra.deep_view()),
{
    match extra {
        Some(e) => if blank(e.as_str()) {
            lit(CODING_PERSONA)
        } else {
            lit(CODING_PERSONA).concat("\n\n").concat(trim(e.as_str()))
        },
        None => lit(CODING_PERSONA),
    }
}
/// The first of the two models that is named.
pub open spec fn model_named(
    row: Option<Seq<char>>,
    environment: Option<Seq<char>>,
) -> Seq<char> {
    match (row, environment) {
        (Some(m), _) => m,
        (None, Some(m)) => m,
        (None, None) => ""@,
    }
}

/// The model the review persona names: the row's, else the environment's, else none.
pub fn review_model(row: Option<String>, environment: Option<String>) -> (r: String)
    ensures
        r@ == model_named(row.deep_view(), environment.deep_view()),
{
    match (row, environment) {
        (Some(m), _) => m,
        (None, Some(m)) => m,
        (None, None) => lit(""),
    }
}

/// House rules are added to the persona and never replace it.
pub proof fn law_the_persona_leads(extra: Option<Seq<char>>)
    ensures
        CODING_PERSONA@.is_prefix_of(with_rules(extra)),
{
}

} // verus!

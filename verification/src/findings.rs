//! Findings: what a review or an audit produces, kept where whoever launched it can read
//! them.
use crate::data::{none_of, put, Dup};
use crate::text::lit;
use vstd::prelude::*;

verus! {

/// What the model is told about reporting.
pub const FINDINGS_PROMPT: &'static str = "Report every issue through `report_finding` — one call per issue, with the file and line range, a priority, and your confidence. Prose in your reply is not a finding and will not be collected.";

/// The sink behind `report_finding`. A finding is kept as the JSON text it was reported
/// with.
pub struct ToolBackedFindings {
    reported: Vec<String>,
}

impl ToolBackedFindings {
    /// What was reported and not taken yet, in order.
    pub closed spec fn held(&self) -> Seq<Seq<char>> {
        self.reported.deep_view()
    }

    pub fn new() -> (f: Self)
        ensures
            f.held() == Seq::<Seq<char>>::empty(),
    {
        ToolBackedFindings { reported: none_of() }
    }

    pub fn describe(&self) -> (r: String)
        ensures
            r@ == "in-memory, collected from `report_finding`"@,
    {
        lit("in-memory, collected from `report_finding`")
    }

    /// Reports a finding.
    pub fn report(&mut self, finding: String)
        ensures
            final(self).held() == old(self).held().push(finding@),
    {
        put(&mut self.reported, finding);
    }

    /// The findings so far.
    pub fn all(&self) -> (out: Vec<String>)
        ensures
            out.deep_view() == self.held(),
    {
        self.reported.dup()
    }

    /// Takes the findings: the next to ask finds only what is reported after this.
    pub fn take(&mut self) -> (out: Vec<String>)
        ensures
            out.deep_view() == old(self).held(),
            final(self).held() == Seq::<Seq<char>>::empty(),
    {
        let out = self.reported.dup();
        self.reported = none_of();
        out
    }
}

} // verus!

//! A compaction strategy's plan, brought to a decision in the log's own terms.
//!
//! What the model would see of a log is worked out elsewhere, so [`Deciding`] asks for
//! it: each step names a log to project, and takes the projection.
use crate::compaction;
use crate::compaction::{
    keep_calls_with_results, wire_bytes, with_decision, CutStep, Layout, LayoutView, Plan, PlanView,
};
use crate::data::Dup;
use crate::events::{LoggedEvent, LoggedEventView};
use crate::message::{Message, MessageView};
use crate::span::{CompactionDecision, CompactionDecisionView};
use vstd::prelude::*;

verus! {

/// How far a decision has come.
#[derive(Debug, PartialEq, Eq)]
pub enum Stage {
    /// A cut is being tried: after `from`, up to `through`.
    Cutting { from: u64, through: u64 },
    /// There is a decision; it lands where it makes the conversation smaller than this.
    Weighing { decision: CompactionDecision, before: Option<usize> },
    Done,
}

/// What a [`Stage`] holds.
#[verifier::ext_equal]
pub enum StageView {
    Cutting { from: u64, through: u64 },
    Weighing { decision: CompactionDecisionView, before: Option<usize> },
    Done,
}

impl DeepView for Stage {
    type V = StageView;

    open spec fn deep_view(&self) -> StageView {
        match self {
            Stage::Cutting { from, through } => StageView::Cutting {
                from: from.deep_view(),
                through: through.deep_view(),
            },
            Stage::Weighing { decision, before } => StageView::Weighing {
                decision: decision.deep_view(),
                before: before.deep_view(),
            },
            Stage::Done => StageView::Done,
        }
    }
}

impl Dup for Stage {
    fn dup(&self) -> (r: Self) {
        match self {
            Stage::Cutting { from, through } => Stage::Cutting {
                from: from.dup(),
                through: through.dup(),
            },
            Stage::Weighing { decision, before } => Stage::Weighing {
                decision: decision.dup(),
                before: before.dup(),
            },
            Stage::Done => Stage::Done,
        }
    }
}

impl Clone for Stage {
    fn clone(&self) -> (r: Self)
        ensures
            r.deep_view() == self.deep_view(),
    {
        self.dup()
    }
}

/// What a decision needs next.
#[derive(Debug, PartialEq, Eq)]
pub enum DecideStep {
    /// What the model would see of this log.
    Project(Vec<LoggedEvent>),
    /// Nothing more: this is what lands, where anything does.
    Done(Option<CompactionDecision>),
}

/// What a [`DecideStep`] holds.
#[verifier::ext_equal]
pub enum DecideStepView {
    Project(Seq<LoggedEventView>),
    Done(Option<CompactionDecisionView>),
}

impl DeepView for DecideStep {
    type V = DecideStepView;

    open spec fn deep_view(&self) -> DecideStepView {
        match self {
            DecideStep::Project(x) => DecideStepView::Project(x.deep_view()),
            DecideStep::Done(x) => DecideStepView::Done(x.deep_view()),
        }
    }
}

impl Dup for DecideStep {
    fn dup(&self) -> (r: Self) {
        match self {
            DecideStep::Project(x) => DecideStep::Project(x.dup()),
            DecideStep::Done(x) => DecideStep::Done(x.dup()),
        }
    }
}

impl Clone for DecideStep {
    fn clone(&self) -> (r: Self)
        ensures
            r.deep_view() == self.deep_view(),
    {
        self.dup()
    }
}

/// A plan on its way to a decision.
#[derive(Debug, PartialEq, Eq)]
pub struct Deciding {
    pub layout: Layout,
    pub events: Vec<LoggedEvent>,
    pub plan: Plan,
    pub stage: Stage,
}

/// What a [`Deciding`] holds.
#[verifier::ext_equal]
pub struct DecidingView {
    pub layout: LayoutView,
    pub events: Seq<LoggedEventView>,
    pub plan: PlanView,
    pub stage: StageView,
}

impl DeepView for Deciding {
    type V = DecidingView;

    open spec fn deep_view(&self) -> DecidingView {
        DecidingView {
            layout: self.layout.deep_view(),
            events: self.events.deep_view(),
            plan: self.plan.deep_view(),
            stage: self.stage.deep_view(),
        }
    }
}

impl Dup for Deciding {
    fn dup(&self) -> (r: Self) {
        Deciding {
            layout: self.layout.dup(),
            events: self.events.dup(),
            plan: self.plan.dup(),
            stage: self.stage.dup(),
        }
    }
}

impl Clone for Deciding {
    fn clone(&self) -> (r: Self)
        ensures
            r.deep_view() == self.deep_view(),
    {
        self.dup()
    }
}

/// Weighs a decision: an empty one needs no weighing.
pub open spec fn weighed(events: Seq<LoggedEventView>, d: CompactionDecisionView) -> (
    StageView,
    DecideStepView,
) {
    if d.through == 0 && d.rewrites.len() == 0 {
        (StageView::Done, DecideStepView::Done(None))
    } else {
        (StageView::Weighing { decision: d, before: None }, DecideStepView::Project(events))
    }
}

/// The log with nothing but a cut.
pub open spec fn trial(from: u64, through: u64) -> CompactionDecisionView {
    CompactionDecisionView {
        from,
        through,
        summary: Seq::empty(),
        rewrites: Seq::empty(),
        note: None,
    }
}

/// Tries a cut; one that would fold nothing is no cut.
pub open spec fn tried(
    l: LayoutView,
    events: Seq<LoggedEventView>,
    p: PlanView,
    from: u64,
    through: u64,
) -> (StageView, DecideStepView) {
    if through <= from {
        weighed(events, compaction::planned(l, p, from, None))
    } else {
        (
            StageView::Cutting { from, through },
            DecideStepView::Project(compaction::with(events, trial(from, through))),
        )
    }
}

/// Where a plan starts: with its cut where it drains anything.
pub open spec fn begun(l: LayoutView, events: Seq<LoggedEventView>, p: PlanView) -> (
    StageView,
    DecideStepView,
) {
    let (df, dt) = compaction::drained(l, p);
    if dt > df {
        let (from, through) = compaction::reach(l, df, dt, compaction::last_seq(events));
        tried(l, events, p, from, through)
    } else {
        weighed(events, compaction::planned(l, p, 0, None))
    }
}

/// What a projection leads to.
pub open spec fn advanced(d: DecidingView, seen: Seq<MessageView>) -> (StageView, DecideStepView) {
    match d.stage {
        StageView::Cutting { from, through } => match compaction::cut(
            d.events,
            from,
            through,
            seen,
        ) {
            CutStep::Keep(t) => weighed(
                d.events,
                compaction::planned(d.layout, d.plan, from, Some(t)),
            ),
            CutStep::Again(t) => tried(d.layout, d.events, d.plan, from, t),
            CutStep::Nowhere => weighed(
                d.events,
                compaction::planned(d.layout, d.plan, from, None),
            ),
        },
        StageView::Weighing { decision, before } => match before {
            None => (
                StageView::Weighing { decision, before: Some(compaction::wire(seen) as usize) },
                DecideStepView::Project(compaction::with(d.events, decision)),
            ),
            Some(b) => (
                StageView::Done,
                DecideStepView::Done(
                    if compaction::wire(seen) < b {
                        Some(decision)
                    } else {
                        None
                    },
                ),
            ),
        },
        StageView::Done => (StageView::Done, DecideStepView::Done(None)),
    }
}

impl Deciding {
    pub open spec fn well_formed(&self) -> bool {
        self.layout.messages@.len() == self.layout.sources@.len()
    }

    fn weigh(&mut self, decision: CompactionDecision) -> (step: DecideStep)
        ensures
            (final(self).deep_view().stage, step.deep_view()) == weighed(
                old(self).deep_view().events,
                decision.deep_view(),
            ),
            final(self).layout == old(self).layout,
            final(self).events == old(self).events,
            final(self).plan == old(self).plan,
    {
        if decision.is_empty() {
            self.stage = Stage::Done;
            DecideStep::Done(None)
        } else {
            self.stage = Stage::Weighing { decision, before: None };
            DecideStep::Project(self.events.dup())
        }
    }

    fn attempt(&mut self, from: u64, through: u64) -> (step: DecideStep)
        requires
            old(self).well_formed(),
        ensures
            (final(self).deep_view().stage, step.deep_view()) == tried(
                old(self).deep_view().layout,
                old(self).deep_view().events,
                old(self).deep_view().plan,
                from,
                through,
            ),
            final(self).layout == old(self).layout,
            final(self).events == old(self).events,
            final(self).plan == old(self).plan,
    {
        if through <= from {
            let decision = self.layout.decide(&self.plan, from, None);
            self.weigh(decision)
        } else {
            self.stage = Stage::Cutting { from, through };
            let mut cut = CompactionDecision::fold(through, String::new());
            cut.from = from;
            assert(cut.deep_view() =~= trial(from, through));
            DecideStep::Project(with_decision(&self.events, &cut))
        }
    }

    /// Starts on a plan for a conversation that was laid out from this log.
    pub fn begin(layout: Layout, events: Vec<LoggedEvent>, plan: Plan) -> (r: (Self, DecideStep))
        requires
            layout.messages@.len() == layout.sources@.len(),
        ensures
            r.0.well_formed(),
            r.0.deep_view().layout == layout.deep_view(),
            r.0.deep_view().events == events.deep_view(),
            r.0.deep_view().plan == plan.deep_view(),
            (r.0.deep_view().stage, r.1.deep_view()) == begun(
                layout.deep_view(),
                events.deep_view(),
                plan.deep_view(),
            ),
    {
        let (drain_from, drain_to) = layout.drain(&plan);
        let last: u64 = if events.len() == 0 {
            0
        } else {
            assert(events.deep_view().last() == events@[events.len() - 1].deep_view());
            events[events.len() - 1].seq
        };
        if drain_to > drain_from {
            let (from, through) = layout.reach(drain_from, drain_to, last);
            let mut d = Deciding { layout, events, plan, stage: Stage::Done };
            let step = d.attempt(from, through);
            (d, step)
        } else {
            let decision = layout.decide(&plan, 0, None);
            let mut d = Deciding { layout, events, plan, stage: Stage::Done };
            let step = d.weigh(decision);
            (d, step)
        }
    }

    /// Takes the projection that was asked for.
    pub fn projected(&mut self, seen: &Vec<Message>) -> (step: DecideStep)
        requires
            old(self).well_formed(),
            compaction::wire(seen.deep_view()) <= usize::MAX,
        ensures
            final(self).well_formed(),
            final(self).deep_view().layout == old(self).deep_view().layout,
            final(self).deep_view().events == old(self).deep_view().events,
            final(self).deep_view().plan == old(self).deep_view().plan,
            (final(self).deep_view().stage, step.deep_view()) == advanced(
                old(self).deep_view(),
                seen.deep_view(),
            ),
    {
        let stage = self.stage.dup();
        match stage {
            Stage::Cutting { from, through } => {
                match keep_calls_with_results(&self.events, from, through, seen) {
                    CutStep::Keep(t) => {
                        let decision = self.layout.decide(&self.plan, from, Some(t));
                        self.weigh(decision)
                    },
                    CutStep::Again(t) => self.attempt(from, t),
                    CutStep::Nowhere => {
                        let decision = self.layout.decide(&self.plan, from, None);
                        self.weigh(decision)
                    },
                }
            },
            Stage::Weighing { decision, before } => match before {
                None => {
                    let next = with_decision(&self.events, &decision);
                    self.stage = Stage::Weighing { decision, before: Some(wire_bytes(seen)) };
                    DecideStep::Project(next)
                },
                Some(b) => {
                    self.stage = Stage::Done;
                    if wire_bytes(seen) < b {
                        DecideStep::Done(Some(decision))
                    } else {
                        DecideStep::Done(None)
                    }
                },
            },
            Stage::Done => DecideStep::Done(None),
        }
    }
}

// ---- laws -----------------------------------------------------------------

/// What lands is the decision that was weighed, and it leaves the conversation strictly
/// smaller than it was.
pub proof fn law_what_lands_shrinks(d: DecidingView, seen: Seq<MessageView>)
    ensures
        advanced(d, seen).1 matches DecideStepView::Done(Some(landed)) ==> {
            &&& d.stage matches StageView::Weighing { decision, before: Some(b) }
            &&& landed == decision
            &&& compaction::wire(seen) < b
        },
{
}

/// A decision is weighed against the log as it is, and then against the log with that
/// decision in it.
pub proof fn law_a_decision_is_weighed_twice(
    d: DecidingView,
    decision: CompactionDecisionView,
    seen: Seq<MessageView>,
)
    requires
        d.stage == (StageView::Weighing { decision, before: None }),
        compaction::wire(seen) <= usize::MAX,
    ensures
        weighed(d.events, decision).1 is Project ==> weighed(d.events, decision).1
            == DecideStepView::Project(d.events),
        advanced(d, seen).1 == DecideStepView::Project(compaction::with(d.events, decision)),
        advanced(d, seen).0 matches StageView::Weighing { before: Some(b), .. } && b
            == compaction::wire(seen),
{
}

} // verus!

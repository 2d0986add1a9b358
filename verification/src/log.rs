//! Reading a session log.
use crate::events::{LoggedEventView, SessionEvent, SessionEventView, StopReason};
use vstd::prelude::*;

verus! {

/// The turn a fact belongs to.
pub open spec fn fact_turn(e: SessionEventView) -> u64 {
    match e {
        SessionEventView::TurnStart { turn } => turn,
        SessionEventView::UserMessage { turn, .. } => turn,
        SessionEventView::Injected { turn, .. } => turn,
        SessionEventView::StepStart { turn, .. } => turn,
        SessionEventView::RequestHeader { turn, .. } => turn,
        SessionEventView::AssistantChunk { turn, .. } => turn,
        SessionEventView::AssistantMessage { turn, .. } => turn,
        SessionEventView::ToolStarted { turn, .. } => turn,
        SessionEventView::ToolResultLogged { turn, .. } => turn,
        SessionEventView::StepEnd { turn, .. } => turn,
        SessionEventView::Usage { turn, .. } => turn,
        SessionEventView::Compacted { turn, .. } => turn,
        SessionEventView::MessagesRewritten { turn, .. } => turn,
        SessionEventView::Notice { turn, .. } => turn,
        SessionEventView::RateLimitPaused { turn, .. } => turn,
        SessionEventView::PolicyIntervention { turn, .. } => turn,
        SessionEventView::Titled { turn, .. } => turn,
        SessionEventView::Asked { turn, .. } => turn,
        SessionEventView::Answered { turn, .. } => turn,
        SessionEventView::Interrupted { turn, .. } => turn,
        SessionEventView::Stopped { turn } => turn,
        SessionEventView::TurnEnd { turn, .. } => turn,
    }
}

impl SessionEvent {
    /// The turn this fact belongs to.
    pub fn turn(&self) -> (t: u64)
        ensures
            t == fact_turn(self.deep_view()),
    {
        match self {
            SessionEvent::TurnStart { turn } => *turn,
            SessionEvent::UserMessage { turn, .. } => *turn,
            SessionEvent::Injected { turn, .. } => *turn,
            SessionEvent::StepStart { turn, .. } => *turn,
            SessionEvent::RequestHeader { turn, .. } => *turn,
            SessionEvent::AssistantChunk { turn, .. } => *turn,
            SessionEvent::AssistantMessage { turn, .. } => *turn,
            SessionEvent::ToolStarted { turn, .. } => *turn,
            SessionEvent::ToolResultLogged { turn, .. } => *turn,
            SessionEvent::StepEnd { turn, .. } => *turn,
            SessionEvent::Usage { turn, .. } => *turn,
            SessionEvent::Compacted { turn, .. } => *turn,
            SessionEvent::MessagesRewritten { turn, .. } => *turn,
            SessionEvent::Notice { turn, .. } => *turn,
            SessionEvent::RateLimitPaused { turn, .. } => *turn,
            SessionEvent::PolicyIntervention { turn, .. } => *turn,
            SessionEvent::Titled { turn, .. } => *turn,
            SessionEvent::Asked { turn, .. } => *turn,
            SessionEvent::Answered { turn, .. } => *turn,
            SessionEvent::Interrupted { turn, .. } => *turn,
            SessionEvent::Stopped { turn } => *turn,
            SessionEvent::TurnEnd { turn, .. } => *turn,
        }
    }
}

/// A stop reason by its name.
pub open spec fn stop_name(stop: StopReason) -> Seq<char> {
    match stop {
        StopReason::Stopped => "Stopped"@,
        StopReason::MaxRounds => "MaxRounds"@,
        StopReason::StoppedByPolicy => "StoppedByPolicy"@,
        StopReason::ToolLoopDetected => "ToolLoopDetected"@,
        StopReason::InputRejected => "InputRejected"@,
        StopReason::InvariantViolated => "InvariantViolated"@,
        StopReason::Cancelled => "Cancelled"@,
        StopReason::RateLimited => "RateLimited"@,
        StopReason::Timeout => "Timeout"@,
        StopReason::ProviderError => "ProviderError"@,
        StopReason::RunawayFuse => "RunawayFuse"@,
    }
}

impl StopReason {
    pub fn name(self) -> (r: &'static str)
        ensures
            r@ == stop_name(self),
    {
        match self {
            StopReason::Stopped => "Stopped",
            StopReason::MaxRounds => "MaxRounds",
            StopReason::StoppedByPolicy => "StoppedByPolicy",
            StopReason::ToolLoopDetected => "ToolLoopDetected",
            StopReason::InputRejected => "InputRejected",
            StopReason::InvariantViolated => "InvariantViolated",
            StopReason::Cancelled => "Cancelled",
            StopReason::RateLimited => "RateLimited",
            StopReason::Timeout => "Timeout",
            StopReason::ProviderError => "ProviderError",
            StopReason::RunawayFuse => "RunawayFuse",
        }
    }
}

/// Sequence numbers only ever grow along a log.
pub open spec fn in_order(log: Seq<LoggedEventView>) -> bool {
    forall|i: int, j: int| 0 <= i < j < log.len() ==> log[i].seq < log[j].seq
}

} // verus!

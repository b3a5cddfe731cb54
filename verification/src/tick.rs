//! The order of the steps of a tick.

use vstd::prelude::*;

verus! {

/// Where a tick stands.
#[derive(Clone, Copy, Debug, PartialEq, Eq, Structural)]
pub enum Phase {
    /// Between two ticks.
    Idle,
    /// The predicted positions are computed.
    Prepared,
    /// The solver has made its passes.
    Solved,
    /// Positions and velocities are final.
    Committed,
}

/// What is asked of a tick next.
#[derive(Clone, Copy, Debug, PartialEq, Eq, Structural)]
pub enum Step {
    /// Apply forces and damping, and predict.
    Prepare,
    /// Find the contacts of the prediction and run the solver on them.
    Solve,
    /// Make the predicted positions final.
    Commit,
    /// End the tick.
    Finish,
}

/// The phase that a step leads to, where the step is the one that the phase
/// allows: no step is skipped, repeated or taken out of order.
pub open spec fn phase_after(phase: Phase, step: Step) -> Option<Phase> {
    match (phase, step) {
        (Phase::Idle, Step::Prepare) => Some(Phase::Prepared),
        (Phase::Prepared, Step::Solve) => Some(Phase::Solved),
        (Phase::Solved, Step::Commit) => Some(Phase::Committed),
        (Phase::Committed, Step::Finish) => Some(Phase::Idle),
        _ => None,
    }
}

/// The step that a phase allows.
pub open spec fn step_due(phase: Phase) -> Step {
    match phase {
        Phase::Idle => Step::Prepare,
        Phase::Prepared => Step::Solve,
        Phase::Solved => Step::Commit,
        Phase::Committed => Step::Finish,
    }
}

impl Phase {
    /// The phase after `step`, or `None` where the step is not the one that
    /// is due.
    pub fn advance(self, step: Step) -> (r: Option<Phase>)
        ensures
            r == phase_after(self, step),
    {
        match (self, step) {
            (Phase::Idle, Step::Prepare) => Some(Phase::Prepared),
            (Phase::Prepared, Step::Solve) => Some(Phase::Solved),
            (Phase::Solved, Step::Commit) => Some(Phase::Committed),
            (Phase::Committed, Step::Finish) => Some(Phase::Idle),
            _ => None,
        }
    }

    /// The one step that this phase allows.
    pub fn due(self) -> (r: Step)
        ensures
            r == step_due(self),
    {
        match self {
            Phase::Idle => Step::Prepare,
            Phase::Prepared => Step::Solve,
            Phase::Solved => Step::Commit,
            Phase::Committed => Step::Finish,
        }
    }
}

/// In every phase exactly one step is accepted, the one that is due.
pub proof fn one_step_is_due(phase: Phase, step: Step)
    ensures
        phase_after(phase, step).is_some() <==> step == step_due(phase),
{
}

/// A step that is accepted always leads to another phase, and from there
/// the same step is not accepted again.
pub proof fn accepted_step_moves_on(phase: Phase, step: Step)
    requires
        phase_after(phase, step).is_some(),
    ensures
        phase_after(phase, step).unwrap() != phase,
        phase_after(phase_after(phase, step).unwrap(), step).is_none(),
{
}

} // verus!

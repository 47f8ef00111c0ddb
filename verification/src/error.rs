//! The ways an operation is turned down.

use vstd::prelude::*;

verus! {

/// Why an input was not accepted.
#[derive(Clone, Copy, Debug, PartialEq, Eq, Structural)]
pub enum ValidationFault {
    /// The proposer holds `have`, less than the `required` power to propose.
    InsufficientPower { required: u64, have: u64 },
    /// The voter holds no voting power.
    NoVotingPower,
}

/// Why the state of a proposal does not allow the operation.
#[derive(Clone, Copy, Debug, PartialEq, Eq, Structural)]
pub enum StateFault {
    /// The proposal is not open for voting.
    NotOpen,
    /// The voting deadline has passed.
    VotingEnded,
    /// The voter has a vote on this proposal already.
    AlreadyVoted,
    /// The proposal has not passed, or is being executed, or was executed.
    NotPassed,
    /// The execution delay has not yet elapsed.
    DelayNotElapsed,
    /// No action of this proposal is with the executor.
    NotExecuting,
}

/// An operation that was turned down, and why.
#[derive(Debug, PartialEq, Eq)]
pub enum GovernanceError {
    /// The input was not accepted.
    Validation(ValidationFault),
    /// No proposal is held under the identifier.
    NotFound,
    /// The state of the proposal does not allow the operation.
    State(StateFault),
    /// The action executor could not be reached, or reported a failure; with its message.
    ExternalCall(String),
}

/// The value of a [`GovernanceError`].
pub enum GovernanceErrorView {
    Validation(ValidationFault),
    NotFound,
    State(StateFault),
    ExternalCall(Seq<char>),
}

impl View for GovernanceError {
    type V = GovernanceErrorView;

    open spec fn view(&self) -> GovernanceErrorView {
        match *self {
            GovernanceError::Validation(fault) => GovernanceErrorView::Validation(fault),
            GovernanceError::NotFound => GovernanceErrorView::NotFound,
            GovernanceError::State(fault) => GovernanceErrorView::State(fault),
            GovernanceError::ExternalCall(message) => GovernanceErrorView::ExternalCall(message@),
        }
    }
}

impl Clone for GovernanceError {
    fn clone(&self) -> (copy: Self)
        ensures
            copy@ == self@,
    {
        match self {
            GovernanceError::Validation(fault) => GovernanceError::Validation(*fault),
            GovernanceError::NotFound => GovernanceError::NotFound,
            GovernanceError::State(fault) => GovernanceError::State(*fault),
            GovernanceError::ExternalCall(message) => GovernanceError::ExternalCall(message.clone()),
        }
    }
}

/// The value of the result of an operation that returns nothing.
pub open spec fn unit_result_view(result: Result<(), GovernanceError>) -> Result<
    (),
    GovernanceErrorView,
> {
    match result {
        Ok(()) => Ok(()),
        Err(e) => Err(e@),
    }
}

} // verus!

//! The engine as a state machine: its state as a plain value, the actions
//! that change it, and what each action does.
//!
//! The executable engine is held to this model: each of its operations
//! leaves the state that [`apply`] gives.

use vstd::prelude::*;
use crate::dispatch::{outcome_of, ExecutorReplyView};
use crate::error::{GovernanceErrorView, StateFault, ValidationFault};
use crate::ledger::{distinct_holders, power_of, total_power, with_record};
use crate::store::{allocated, ascending, has_id, lookup, slot_of};
use crate::tally::{verdict_of, Verdict};
use crate::types::{
    DAOConfig, ProposalStatus, ProposalTypeView, ProposalView, VoteOption, VoteView,
    VotingPowerView,
};
use crate::votes::{ascending_ballots, cast_power, distinct_ballots, has_voted, with_vote};

verus! {

/// The state of the engine.
pub struct GovernanceView {
    /// The parameters in force.
    pub config: DAOConfig,
    /// The voting-power records, one per participant.
    pub ledger: Seq<VotingPowerView>,
    /// The proposal identifier handed out last; zero before the first.
    pub last_id: u64,
    /// The proposals, by ascending identifier.
    pub proposals: Seq<ProposalView>,
    /// The votes, by proposal and voter.
    pub votes: Seq<VoteView>,
}

/// The state before anything has happened.
pub open spec fn initial(config: DAOConfig) -> GovernanceView {
    GovernanceView {
        config,
        ledger: Seq::empty(),
        last_id: 0,
        proposals: Seq::empty(),
        votes: Seq::empty(),
    }
}

/// What holds of a vote that is on record: it is on a proposal that exists,
/// it carries power, and it was cast within that proposal's voting window.
pub open spec fn vote_in_order(proposals: Seq<ProposalView>, vote: VoteView) -> bool {
    &&& has_id(proposals, vote.proposal_id)
    &&& vote.voting_power > 0
    &&& vote.timestamp <= proposals[slot_of(proposals, vote.proposal_id)].voting_deadline
}

/// What holds of a proposal that is on record, given the votes on record:
/// its tallies are the power cast for and against it, its campaign is the
/// one its type names, its voting window does not end before it begins, and
/// it is with the executor only if it has a call to make.
pub open spec fn proposal_in_order(votes: Seq<VoteView>, proposal: ProposalView) -> bool {
    &&& proposal.votes_for == cast_power(votes, proposal.id, VoteOption::For)
    &&& proposal.votes_against == cast_power(votes, proposal.id, VoteOption::Against)
    &&& proposal.campaign_id == proposal.proposal_type.campaign()
    &&& proposal.created_at <= proposal.voting_deadline
    &&& proposal.status == ProposalStatus::Executing ==> !proposal.proposal_type.is_emergency()
}

impl GovernanceView {
    /// The invariant of the engine. It holds at the start and after every action.
    pub open spec fn inv(self) -> bool {
        &&& distinct_holders(self.ledger)
        &&& ascending(self.proposals)
        &&& allocated(self.proposals, self.last_id)
        &&& distinct_ballots(self.votes)
        &&& ascending_ballots(self.votes)
        &&& forall|i: int|
            0 <= i < self.votes.len() ==> vote_in_order(self.proposals, #[trigger] self.votes[i])
        &&& forall|k: int|
            0 <= k < self.proposals.len() ==> proposal_in_order(
                self.votes,
                #[trigger] self.proposals[k],
            )
    }

    /// The proposal held under `id`, if there is one.
    pub open spec fn proposal(self, id: u64) -> Option<ProposalView> {
        lookup(self.proposals, id)
    }

    /// The voting power of `who` as the ledger has it now.
    pub open spec fn power(self, who: Seq<u8>) -> nat {
        power_of(self.ledger, who)
    }
}

/// What can be asked of the engine.
pub enum Action {
    /// Submit a proposal.
    Submit {
        proposer: Seq<u8>,
        title: Seq<char>,
        description: Seq<char>,
        proposal_type: ProposalTypeView,
        target_canister: Option<Seq<u8>>,
        payload: Seq<u8>,
        now: u64,
    },
    /// Cast a vote.
    Vote { proposal_id: u64, voter: Seq<u8>, option: VoteOption, now: u64 },
    /// Start the execution of a passed proposal.
    BeginExecution { proposal_id: u64, now: u64 },
    /// Conclude an execution with what the executor answered.
    CompleteExecution { proposal_id: u64, reply: ExecutorReplyView },
    /// Write a voting-power record.
    SetVotingPower { record: VotingPowerView },
    /// Replace the parameters.
    SetConfig { config: DAOConfig },
}

/// Why a submission by `proposer` is turned down, if it is: the proposer
/// holds less than the power required to propose.
pub open spec fn submit_refusal(pre: GovernanceView, proposer: Seq<u8>) -> Option<
    GovernanceErrorView,
> {
    if pre.power(proposer) < pre.config.min_proposal_threshold {
        Some(
            GovernanceErrorView::Validation(
                ValidationFault::InsufficientPower {
                    required: pre.config.min_proposal_threshold,
                    have: pre.power(proposer) as u64,
                },
            ),
        )
    } else {
        None
    }
}

/// The execution delay of a proposal of the given type: half the
/// configured delay for an emergency proposal, the whole for any other.
pub open spec fn delay_for(config: DAOConfig, proposal_type: ProposalTypeView) -> u64 {
    if proposal_type.is_emergency() {
        config.execution_delay / 2
    } else {
        config.execution_delay
    }
}

/// The pass threshold that applies to a proposal of the given type.
pub open spec fn threshold_for(config: DAOConfig, proposal_type: ProposalTypeView) -> u64 {
    if proposal_type.is_emergency() {
        config.emergency_threshold
    } else {
        config.pass_threshold
    }
}

/// The proposal that a submission creates: open, without votes, with the
/// deadline, the delay and the total voting power of the moment.
pub open spec fn submitted(
    pre: GovernanceView,
    proposer: Seq<u8>,
    title: Seq<char>,
    description: Seq<char>,
    proposal_type: ProposalTypeView,
    target_canister: Option<Seq<u8>>,
    payload: Seq<u8>,
    now: u64,
) -> ProposalView {
    ProposalView {
        id: (pre.last_id + 1) as u64,
        proposer,
        title,
        description,
        proposal_type,
        campaign_id: proposal_type.campaign(),
        target_canister,
        payload,
        created_at: now,
        voting_deadline: (now + pre.config.voting_period) as u64,
        status: ProposalStatus::Open,
        votes_for: 0,
        votes_against: 0,
        total_voting_power: total_power(pre.ledger) as u64,
        execution_delay: delay_for(pre.config, proposal_type),
    }
}

/// Why a vote is turned down, if it is. The tests are made in this order:
/// the proposal exists, it is open, its deadline has not passed, the voter
/// has no vote on it yet, the voter holds power.
pub open spec fn vote_refusal(pre: GovernanceView, proposal_id: u64, voter: Seq<u8>, now: u64) -> Option<
    GovernanceErrorView,
> {
    match pre.proposal(proposal_id) {
        None => Some(GovernanceErrorView::NotFound),
        Some(proposal) => if proposal.status != ProposalStatus::Open {
            Some(GovernanceErrorView::State(StateFault::NotOpen))
        } else if now > proposal.voting_deadline {
            Some(GovernanceErrorView::State(StateFault::VotingEnded))
        } else if has_voted(pre.votes, proposal_id, voter) {
            Some(GovernanceErrorView::State(StateFault::AlreadyVoted))
        } else if pre.power(voter) == 0 {
            Some(GovernanceErrorView::Validation(ValidationFault::NoVotingPower))
        } else {
            None
        },
    }
}

/// The status that a tally gives an open proposal.
pub open spec fn status_after(verdict: Verdict) -> ProposalStatus {
    match verdict {
        Verdict::Undecided => ProposalStatus::Open,
        Verdict::Passed => ProposalStatus::Passed,
        Verdict::Rejected => ProposalStatus::Rejected,
    }
}

/// A proposal after a vote of `power` for `option`: the power is added to
/// the side taken, to neither for an abstention, and the new tally is
/// evaluated at once.
pub open spec fn voted(
    proposal: ProposalView,
    option: VoteOption,
    power: u64,
    config: DAOConfig,
) -> ProposalView {
    let votes_for = if option == VoteOption::For {
        (proposal.votes_for + power) as u64
    } else {
        proposal.votes_for
    };
    let votes_against = if option == VoteOption::Against {
        (proposal.votes_against + power) as u64
    } else {
        proposal.votes_against
    };
    ProposalView {
        votes_for,
        votes_against,
        status: status_after(
            verdict_of(
                votes_for as nat,
                votes_against as nat,
                proposal.total_voting_power as nat,
                config.quorum_threshold as nat,
                threshold_for(config, proposal.proposal_type) as nat,
            ),
        ),
        ..proposal
    }
}

/// Why the start of an execution is turned down, if it is: the proposal
/// does not exist, it is not in the passed state, or its delay has not
/// elapsed. At `voting_deadline + execution_delay` the delay has elapsed.
pub open spec fn begin_refusal(pre: GovernanceView, proposal_id: u64, now: u64) -> Option<
    GovernanceErrorView,
> {
    match pre.proposal(proposal_id) {
        None => Some(GovernanceErrorView::NotFound),
        Some(proposal) => if proposal.status != ProposalStatus::Passed {
            Some(GovernanceErrorView::State(StateFault::NotPassed))
        } else if now < proposal.voting_deadline + proposal.execution_delay {
            Some(GovernanceErrorView::State(StateFault::DelayNotElapsed))
        } else {
            None
        },
    }
}

/// Why the conclusion of an execution is turned down, if it is: the
/// proposal does not exist, or no action of it is with the executor.
pub open spec fn complete_refusal(pre: GovernanceView, proposal_id: u64) -> Option<
    GovernanceErrorView,
> {
    match pre.proposal(proposal_id) {
        None => Some(GovernanceErrorView::NotFound),
        Some(proposal) => if proposal.status != ProposalStatus::Executing {
            Some(GovernanceErrorView::State(StateFault::NotExecuting))
        } else {
            None
        },
    }
}

/// The status in which an execution ends.
pub open spec fn status_concluded(outcome: Result<(), GovernanceErrorView>) -> ProposalStatus {
    match outcome {
        Ok(()) => ProposalStatus::Executed,
        Err(_) => ProposalStatus::Failed,
    }
}

/// The state with the status of the proposal under `id` set to `status`.
pub open spec fn with_status(pre: GovernanceView, id: u64, status: ProposalStatus) -> GovernanceView {
    let slot = slot_of(pre.proposals, id);
    GovernanceView {
        proposals: pre.proposals.update(slot, ProposalView { status, ..pre.proposals[slot] }),
        ..pre
    }
}

/// What the limits of 64-bit numbers ask of a submission that is not
/// turned down: room for one more identifier, for the deadline and for the
/// total voting power.
pub open spec fn submit_within_limits(pre: GovernanceView, proposer: Seq<u8>, now: u64) -> bool {
    submit_refusal(pre, proposer) is None ==> {
        &&& pre.last_id < u64::MAX
        &&& now + pre.config.voting_period <= u64::MAX
        &&& total_power(pre.ledger) <= u64::MAX
    }
}

/// What the limits of 64-bit numbers ask of a vote that is not turned
/// down: room in the tally it adds to.
pub open spec fn vote_within_limits(
    pre: GovernanceView,
    proposal_id: u64,
    voter: Seq<u8>,
    option: VoteOption,
    now: u64,
) -> bool {
    vote_refusal(pre, proposal_id, voter, now) is None ==> {
        let proposal = pre.proposals[slot_of(pre.proposals, proposal_id)];
        &&& option == VoteOption::For ==> proposal.votes_for + pre.power(voter) <= u64::MAX
        &&& option == VoteOption::Against ==> proposal.votes_against + pre.power(voter) <= u64::MAX
    }
}

/// What the limits of 64-bit numbers ask of an action: something of a
/// submission and of a vote, nothing of any other.
pub open spec fn within_limits(pre: GovernanceView, action: Action) -> bool {
    match action {
        Action::Submit { proposer, now, .. } => submit_within_limits(pre, proposer, now),
        Action::Vote { proposal_id, voter, option, now } => vote_within_limits(
            pre,
            proposal_id,
            voter,
            option,
            now,
        ),
        _ => true,
    }
}

/// The state after an action. An action that is turned down leaves the
/// state as it was.
pub open spec fn apply(pre: GovernanceView, action: Action) -> GovernanceView {
    match action {
        Action::Submit {
            proposer,
            title,
            description,
            proposal_type,
            target_canister,
            payload,
            now,
        } => if submit_refusal(pre, proposer) is Some {
            pre
        } else {
            GovernanceView {
                last_id: (pre.last_id + 1) as u64,
                proposals: pre.proposals.push(
                    submitted(
                        pre,
                        proposer,
                        title,
                        description,
                        proposal_type,
                        target_canister,
                        payload,
                        now,
                    ),
                ),
                ..pre
            }
        },
        Action::Vote { proposal_id, voter, option, now } => if vote_refusal(
            pre,
            proposal_id,
            voter,
            now,
        ) is Some {
            pre
        } else {
            let slot = slot_of(pre.proposals, proposal_id);
            let power = pre.power(voter) as u64;
            GovernanceView {
                proposals: pre.proposals.update(
                    slot,
                    voted(pre.proposals[slot], option, power, pre.config),
                ),
                votes: with_vote(
                    pre.votes,
                    VoteView { proposal_id, voter, vote: option, voting_power: power, timestamp: now },
                ),
                ..pre
            }
        },
        Action::BeginExecution { proposal_id, now } => if begin_refusal(pre, proposal_id, now) is Some {
            pre
        } else if pre.proposals[slot_of(pre.proposals, proposal_id)].proposal_type.is_emergency() {
            with_status(pre, proposal_id, ProposalStatus::Executed)
        } else {
            with_status(pre, proposal_id, ProposalStatus::Executing)
        },
        Action::CompleteExecution { proposal_id, reply } => if complete_refusal(pre, proposal_id) is Some {
            pre
        } else {
            with_status(
                pre,
                proposal_id,
                status_concluded(
                    outcome_of(
                        pre.proposals[slot_of(pre.proposals, proposal_id)].proposal_type,
                        reply,
                    ),
                ),
            )
        },
        Action::SetVotingPower { record } => GovernanceView {
            ledger: with_record(pre.ledger, record),
            ..pre
        },
        Action::SetConfig { config } => GovernanceView { config, ..pre },
    }
}

/// The state after a sequence of actions, taken in order.
pub open spec fn run(start: GovernanceView, actions: Seq<Action>) -> GovernanceView
    decreases actions.len(),
{
    if actions.len() == 0 {
        start
    } else {
        apply(run(start, actions.drop_last()), actions.last())
    }
}

/// Every action of the sequence stays within the limits of 64-bit numbers
/// in the state in which it is taken.
pub open spec fn run_within_limits(start: GovernanceView, actions: Seq<Action>) -> bool {
    forall|k: int|
        0 <= k < actions.len() ==> within_limits(run(start, actions.take(k)), #[trigger] actions[k])
}

/// The one-step changes of status: an open proposal is passed or rejected;
/// a passed proposal goes to the executor, or is executed on the spot; a
/// proposal with the executor ends executed or failed.
pub open spec fn steps_to(from: ProposalStatus, to: ProposalStatus) -> bool {
    match from {
        ProposalStatus::Open => to == ProposalStatus::Passed || to == ProposalStatus::Rejected,
        ProposalStatus::Passed => to == ProposalStatus::Executing || to == ProposalStatus::Executed,
        ProposalStatus::Executing => to == ProposalStatus::Executed || to == ProposalStatus::Failed,
        ProposalStatus::Rejected => false,
        ProposalStatus::Executed => false,
        ProposalStatus::Failed => false,
    }
}

/// The statuses that can be seen after `from`, however many steps later:
/// `from` itself and what lies further along the way from open, by passed
/// or rejected, to executed or failed.
pub open spec fn follows(from: ProposalStatus, to: ProposalStatus) -> bool {
    from == to || match from {
        ProposalStatus::Open => true,
        ProposalStatus::Passed => to == ProposalStatus::Executing || to == ProposalStatus::Executed
            || to == ProposalStatus::Failed,
        ProposalStatus::Executing => to == ProposalStatus::Executed || to == ProposalStatus::Failed,
        ProposalStatus::Rejected => false,
        ProposalStatus::Executed => false,
        ProposalStatus::Failed => false,
    }
}

/// Nothing of `later` differs from `earlier` but the status and the two
/// tallies, and neither tally is smaller.
pub open spec fn moved_on(earlier: ProposalView, later: ProposalView) -> bool {
    &&& later == ProposalView {
        status: later.status,
        votes_for: later.votes_for,
        votes_against: later.votes_against,
        ..earlier
    }
    &&& earlier.votes_for <= later.votes_for
    &&& earlier.votes_against <= later.votes_against
}

/// The ledger `snapshot` stands behind the proposal under `id`: the frozen
/// total of the proposal is the total of the snapshot, and no vote on the
/// proposal carries more power than the snapshot holds for its voter.
pub open spec fn backed_by(state: GovernanceView, id: u64, snapshot: Seq<VotingPowerView>) -> bool {
    &&& has_id(state.proposals, id)
    &&& state.proposals[slot_of(state.proposals, id)].total_voting_power == total_power(snapshot)
    &&& forall|i: int|
        0 <= i < state.votes.len() && (#[trigger] state.votes[i]).proposal_id == id
            ==> state.votes[i].voting_power <= power_of(snapshot, state.votes[i].voter)
}

/// The action is no vote on the proposal under `id` by a voter who holds
/// more power now than `snapshot` holds for them.
pub open spec fn votes_as_backed(
    state: GovernanceView,
    action: Action,
    id: u64,
    snapshot: Seq<VotingPowerView>,
) -> bool {
    action matches Action::Vote { proposal_id, voter, now, .. } ==> proposal_id == id
        && vote_refusal(state, proposal_id, voter, now) is None ==> state.power(voter) <= power_of(
        snapshot,
        voter,
    )
}

} // verus!

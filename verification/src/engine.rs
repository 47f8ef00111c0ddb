//! The engine: submission, voting, execution in two steps, and the queries.
//!
//! The engine owns its parameters, the ledger, the proposals and the votes.
//! It never asks the time or the caller's identity: both are handed to it.
//! It never calls the action executor: [`Governance::begin_execution`] says
//! which call to make, and [`Governance::complete_execution`] is told what
//! came back.

use vstd::prelude::*;
use crate::dispatch::{
    call_option_view, outcome_of, plan_call, planned_call, settle, ExecutorCall, ExecutorReply,
};
use crate::error::{unit_result_view, GovernanceError, StateFault, ValidationFault};
use crate::preservation::lemma_apply_keeps_inv;
use crate::ledger::{
    calculate_user_voting_power, records_in_order, total_power, user_power, VotingPowerLedger,
};
use crate::model::{
    apply, begin_refusal, complete_refusal, initial, submit_refusal, submit_within_limits,
    vote_refusal, vote_within_limits, Action, GovernanceView,
};
use crate::store::{lemma_with_proposal, proposal_option_view, slot_of, ProposalStore};
use crate::tally::{evaluate_tally, Verdict};
use crate::types::{
    distinct_campaigns, identity_option_view, proposal_views, vote_views, DAOConfig, Identity,
    Proposal, ProposalStatus, ProposalType, ProposalView, Vote, VoteOption, VoteView,
    VotingPower, VotingPowerView,
};
use crate::votes::{voters_bounded, VoteBook};

verus! {

/// The governance engine.
pub struct Governance {
    config: DAOConfig,
    ledger: VotingPowerLedger,
    store: ProposalStore,
    votes: VoteBook,
}

impl View for Governance {
    type V = GovernanceView;

    closed spec fn view(&self) -> GovernanceView {
        GovernanceView {
            config: self.config,
            ledger: self.ledger@,
            last_id: self.store@.last_id,
            proposals: self.store@.items,
            votes: self.votes@,
        }
    }
}

impl Governance {
    /// The engine is in order: its state meets the invariant of the model,
    /// every record of the ledger names each campaign once, and every voter
    /// on record is an identity of no more bytes than an identity can have.
    pub open spec fn wf(&self) -> bool {
        &&& self@.inv()
        &&& records_in_order(self@.ledger)
        &&& voters_bounded(self@.votes)
    }

    /// An engine with the given parameters and nothing on record.
    pub fn new(config: DAOConfig) -> (engine: Governance)
        ensures
            engine.wf(),
            engine@ == initial(config),
    {
        Governance {
            config,
            ledger: VotingPowerLedger::new(),
            store: ProposalStore::new(),
            votes: VoteBook::new(),
        }
    }

    /// Submits a proposal in the name of `caller` at time `now`.
    ///
    /// A caller below the proposal threshold is turned down and nothing
    /// changes. Otherwise the proposal is kept under the next identifier,
    /// open and without votes, with the total voting power of this moment,
    /// and the identifier is returned.
    ///
    /// The identifier, the deadline and the total have to fit into 64 bits:
    /// [`Governance::submission_fits`] tests it beforehand.
    pub fn submit_proposal(
        &mut self,
        caller: Identity,
        title: String,
        description: String,
        proposal_type: ProposalType,
        target_canister: Option<Identity>,
        payload: Vec<u8>,
        now: u64,
    ) -> (result: Result<u64, GovernanceError>)
        requires
            old(self).wf(),
            submit_within_limits(old(self)@, caller@, now),
        ensures
            final(self).wf(),
            final(self)@ == apply(
                old(self)@,
                Action::Submit {
                    proposer: caller@,
                    title: title@,
                    description: description@,
                    proposal_type: proposal_type@,
                    target_canister: identity_option_view(target_canister),
                    payload: payload@,
                    now,
                },
            ),
            match result {
                Ok(id) => submit_refusal(old(self)@, caller@) is None && id == old(self)@.last_id + 1,
                Err(e) => submit_refusal(old(self)@, caller@) == Some(e@),
            },
    {
        let ghost pre = self@;
        let ghost action = Action::Submit {
            proposer: caller@,
            title: title@,
            description: description@,
            proposal_type: proposal_type@,
            target_canister: identity_option_view(target_canister),
            payload: payload@,
            now,
        };
        let have = self.ledger.get(&caller);
        if have < self.config.min_proposal_threshold {
            return Err(
                GovernanceError::Validation(
                    ValidationFault::InsufficientPower {
                        required: self.config.min_proposal_threshold,
                        have,
                    },
                ),
            );
        }
        let id = self.store.next_id();
        let execution_delay = if proposal_type.is_emergency() {
            self.config.execution_delay / 2
        } else {
            self.config.execution_delay
        };
        let campaign_id = proposal_type.campaign();
        let proposal = Proposal {
            id,
            proposer: caller,
            title,
            description,
            proposal_type,
            campaign_id,
            target_canister,
            payload,
            created_at: now,
            voting_deadline: now + self.config.voting_period,
            status: ProposalStatus::Open,
            votes_for: 0,
            votes_against: 0,
            total_voting_power: self.ledger.total(),
            execution_delay,
        };
        proof {
            lemma_with_proposal(pre.proposals, proposal@);
        }
        self.store.put(id, proposal);
        proof {
            assert(self@ == apply(pre, action));
            lemma_apply_keeps_inv(pre, action);
        }
        Ok(id)
    }

    /// Tests whether a vote of `caller` on a proposal at time `now` is
    /// taken, and gives the proposal and the caller's power if it is.
    fn admit_vote(&self, caller: &Identity, proposal_id: u64, now: u64) -> (result: Result<
        (Proposal, u64),
        GovernanceError,
    >)
        requires
            self.wf(),
        ensures
            match result {
                Ok((proposal, power)) => {
                    &&& vote_refusal(self@, proposal_id, caller@, now) is None
                    &&& proposal@ == self@.proposals[slot_of(self@.proposals, proposal_id)]
                    &&& power == self@.power(caller@)
                },
                Err(e) => vote_refusal(self@, proposal_id, caller@, now) == Some(e@),
            },
    {
        let proposal = match self.store.get(proposal_id) {
            Some(found) => found,
            None => {
                return Err(GovernanceError::NotFound);
            },
        };
        if proposal.status != ProposalStatus::Open {
            return Err(GovernanceError::State(StateFault::NotOpen));
        }
        if now > proposal.voting_deadline {
            return Err(GovernanceError::State(StateFault::VotingEnded));
        }
        if self.votes.has_voted(proposal_id, caller) {
            return Err(GovernanceError::State(StateFault::AlreadyVoted));
        }
        let voting_power = self.ledger.get(caller);
        if voting_power == 0 {
            return Err(GovernanceError::Validation(ValidationFault::NoVotingPower));
        }
        Ok((proposal, voting_power))
    }

    /// Whether the numbers of a vote fit: `true` for a vote that would be
    /// turned down, and for one whose power the tally has room for.
    pub fn vote_fits(
        &self,
        caller: &Identity,
        proposal_id: u64,
        vote_option: VoteOption,
        now: u64,
    ) -> (fits: bool)
        requires
            self.wf(),
        ensures
            fits == vote_within_limits(self@, proposal_id, caller@, vote_option, now),
    {
        match self.admit_vote(caller, proposal_id, now) {
            Ok((proposal, power)) => match vote_option {
                VoteOption::For => proposal.votes_for.checked_add(power).is_some(),
                VoteOption::Against => proposal.votes_against.checked_add(power).is_some(),
                VoteOption::Abstain => true,
            },
            Err(_) => true,
        }
    }

    /// Whether the numbers of a submission fit: `true` for a submission
    /// that would be turned down, and for one that leaves room for its
    /// identifier, its deadline and the total voting power.
    pub fn submission_fits(&self, caller: &Identity, now: u64) -> (fits: bool)
        requires
            self.wf(),
        ensures
            fits == submit_within_limits(self@, caller@, now),
    {
        if self.ledger.get(caller) < self.config.min_proposal_threshold {
            return true;
        }
        self.store.last_id() < u64::MAX && now.checked_add(self.config.voting_period).is_some()
            && self.ledger.checked_total().is_some()
    }

    /// Casts the vote of `caller` on a proposal at time `now`.
    ///
    /// The vote is turned down, and nothing changes, if the proposal does
    /// not exist, is not open, is past its deadline, has a vote of this
    /// caller already, or if the caller holds no power. Otherwise the vote
    /// is recorded with the caller's power of this moment, the power is
    /// added to the side taken, and the tally is evaluated at once: where
    /// quorum is met the proposal is passed or rejected here and now.
    ///
    /// The tally has to fit into 64 bits: [`Governance::vote_fits`] tests
    /// it beforehand.
    pub fn vote_on_proposal(
        &mut self,
        caller: &Identity,
        proposal_id: u64,
        vote_option: VoteOption,
        now: u64,
    ) -> (result: Result<(), GovernanceError>)
        requires
            old(self).wf(),
            vote_within_limits(old(self)@, proposal_id, caller@, vote_option, now),
        ensures
            final(self).wf(),
            final(self)@ == apply(
                old(self)@,
                Action::Vote { proposal_id, voter: caller@, option: vote_option, now },
            ),
            match result {
                Ok(()) => vote_refusal(old(self)@, proposal_id, caller@, now) is None,
                Err(e) => vote_refusal(old(self)@, proposal_id, caller@, now) == Some(e@),
            },
    {
        let ghost pre = self@;
        let ghost action = Action::Vote { proposal_id, voter: caller@, option: vote_option, now };
        let (mut proposal, voting_power) = match self.admit_vote(caller, proposal_id, now) {
            Ok(admitted) => admitted,
            Err(refusal) => {
                return Err(refusal);
            },
        };
        let vote = Vote {
            proposal_id,
            voter: caller.clone(),
            vote: vote_option,
            voting_power,
            timestamp: now,
        };
        self.votes.record(vote);
        match vote_option {
            VoteOption::For => {
                proposal.votes_for = proposal.votes_for + voting_power;
            },
            VoteOption::Against => {
                proposal.votes_against = proposal.votes_against + voting_power;
            },
            VoteOption::Abstain => {},
        }
        let pass_threshold = if proposal.proposal_type.is_emergency() {
            self.config.emergency_threshold
        } else {
            self.config.pass_threshold
        };
        match evaluate_tally(
            proposal.votes_for,
            proposal.votes_against,
            proposal.total_voting_power,
            self.config.quorum_threshold,
            pass_threshold,
        ) {
            Verdict::Undecided => {},
            Verdict::Passed => {
                proposal.status = ProposalStatus::Passed;
            },
            Verdict::Rejected => {
                proposal.status = ProposalStatus::Rejected;
            },
        }
        proof {
            lemma_with_proposal(pre.proposals, proposal@);
        }
        self.store.put(proposal_id, proposal);
        proof {
            assert(self@ == apply(pre, action));
            lemma_apply_keeps_inv(pre, action);
        }
        Ok(())
    }

    /// Starts the execution of a proposal at time `now`.
    ///
    /// The start is turned down, and nothing changes, if the proposal does
    /// not exist, is not in the passed state, or if `now` is before its
    /// deadline plus its delay. Otherwise the proposal leaves the passed
    /// state before anything else happens, so that no second start can
    /// succeed: an emergency proposal, which has no call, is executed here
    /// and `None` is returned; any other is marked as executing and its
    /// call is returned, to be made by the caller and concluded with
    /// [`Governance::complete_execution`]. A proposal that is marked as
    /// executing stays so until it is concluded: nothing else moves it.
    pub fn begin_execution(&mut self, proposal_id: u64, now: u64) -> (result: Result<
        Option<ExecutorCall>,
        GovernanceError,
    >)
        requires
            old(self).wf(),
        ensures
            final(self).wf(),
            final(self)@ == apply(old(self)@, Action::BeginExecution { proposal_id, now }),
            match result {
                Ok(call) => begin_refusal(old(self)@, proposal_id, now) is None && call_option_view(
                    call,
                ) == planned_call(
                    old(self)@.proposals[slot_of(old(self)@.proposals, proposal_id)].proposal_type,
                ),
                Err(e) => begin_refusal(old(self)@, proposal_id, now) == Some(e@),
            },
    {
        let ghost pre = self@;
        let ghost action = Action::BeginExecution { proposal_id, now };
        let mut proposal = match self.store.get(proposal_id) {
            Some(found) => found,
            None => {
                return Err(GovernanceError::NotFound);
            },
        };
        if proposal.status != ProposalStatus::Passed {
            return Err(GovernanceError::State(StateFault::NotPassed));
        }
        let ready_at: u128 = proposal.voting_deadline as u128 + proposal.execution_delay as u128;
        if (now as u128) < ready_at {
            return Err(GovernanceError::State(StateFault::DelayNotElapsed));
        }
        let call = plan_call(&proposal.proposal_type);
        proposal.status = match call {
            Some(_) => ProposalStatus::Executing,
            None => ProposalStatus::Executed,
        };
        proof {
            lemma_with_proposal(pre.proposals, proposal@);
        }
        self.store.put(proposal_id, proposal);
        proof {
            assert(self@ == apply(pre, action));
            lemma_apply_keeps_inv(pre, action);
        }
        Ok(call)
    }

    /// Concludes the execution of a proposal with what the executor answered.
    ///
    /// The conclusion is turned down, and nothing changes, if the proposal
    /// does not exist or is not marked as executing. Otherwise the proposal
    /// ends as executed where the executor carried the action out, and as
    /// failed where it did not; the failure is returned to the caller and
    /// the proposal is not tried again.
    pub fn complete_execution(&mut self, proposal_id: u64, reply: ExecutorReply) -> (result: Result<
        (),
        GovernanceError,
    >)
        requires
            old(self).wf(),
        ensures
            final(self).wf(),
            final(self)@ == apply(
                old(self)@,
                Action::CompleteExecution { proposal_id, reply: reply@ },
            ),
            unit_result_view(result) == match complete_refusal(old(self)@, proposal_id) {
                Some(e) => Err(e),
                None => outcome_of(
                    old(self)@.proposals[slot_of(old(self)@.proposals, proposal_id)].proposal_type,
                    reply@,
                ),
            },
    {
        let ghost pre = self@;
        let ghost action = Action::CompleteExecution { proposal_id, reply: reply@ };
        let mut proposal = match self.store.get(proposal_id) {
            Some(found) => found,
            None => {
                return Err(GovernanceError::NotFound);
            },
        };
        if proposal.status != ProposalStatus::Executing {
            return Err(GovernanceError::State(StateFault::NotExecuting));
        }
        let outcome = settle(&proposal.proposal_type, reply);
        proposal.status = match &outcome {
            Ok(()) => ProposalStatus::Executed,
            Err(_) => ProposalStatus::Failed,
        };
        proof {
            lemma_with_proposal(pre.proposals, proposal@);
        }
        self.store.put(proposal_id, proposal);
        proof {
            assert(self@ == apply(pre, action));
            lemma_apply_keeps_inv(pre, action);
        }
        outcome
    }

    /// Writes the voting power of `holder`, derived from its holdings, in
    /// place of whatever the ledger held for it. Proposals on record keep
    /// the total they were submitted with.
    ///
    /// The investments are one amount per campaign.
    /// The power has to fit into 64 bits: [`checked_user_voting_power`]
    /// tests it beforehand.
    ///
    /// [`checked_user_voting_power`]: crate::ledger::checked_user_voting_power
    pub fn update_voting_power(
        &mut self,
        holder: Identity,
        campaign_investments: Vec<(u64, u64)>,
        nft_holdings: Vec<u64>,
        now: u64,
    ) -> (result: Result<(), GovernanceError>)
        requires
            old(self).wf(),
            distinct_campaigns(campaign_investments@),
            user_power(campaign_investments@, nft_holdings@) <= u64::MAX,
        ensures
            final(self).wf(),
            final(self)@ == apply(
                old(self)@,
                Action::SetVotingPower {
                    record: VotingPowerView {
                        holder: holder@,
                        power: user_power(campaign_investments@, nft_holdings@) as u64,
                        campaign_investments: campaign_investments@,
                        nft_holdings: nft_holdings@,
                        last_updated: now,
                    },
                },
            ),
            result is Ok,
    {
        let ghost pre = self@;
        let power = calculate_user_voting_power(&campaign_investments, &nft_holdings);
        let record = VotingPower {
            holder,
            power,
            campaign_investments,
            nft_holdings,
            last_updated: now,
        };
        proof {
            lemma_apply_keeps_inv(pre, Action::SetVotingPower { record: record@ });
        }
        self.ledger.set(record);
        Ok(())
    }

    /// Replaces the parameters by `new_config`, as they are given.
    /// Proposals on record keep their deadline and their delay.
    pub fn update_dao_config(&mut self, new_config: DAOConfig) -> (result: Result<
        (),
        GovernanceError,
    >)
        requires
            old(self).wf(),
        ensures
            final(self).wf(),
            final(self)@ == apply(old(self)@, Action::SetConfig { config: new_config }),
            result is Ok,
    {
        proof {
            lemma_apply_keeps_inv(self@, Action::SetConfig { config: new_config });
        }
        self.config = new_config;
        Ok(())
    }

    /// The parameters in force.
    pub fn get_dao_config(&self) -> (config: DAOConfig)
        ensures
            config == self@.config,
    {
        self.config
    }

    /// The voting power of `user` as the ledger has it now; zero for a
    /// participant the ledger does not know.
    pub fn get_voting_power(&self, user: &Identity) -> (power: u64)
        requires
            self.wf(),
        ensures
            power == self@.power(user@),
    {
        self.ledger.get(user)
    }

    /// The sum of all voting power as the ledger has it now, where 64 bits hold it.
    pub fn checked_total_voting_power(&self) -> (total: Option<u64>)
        ensures
            match total {
                Some(sum) => sum == total_power(self@.ledger),
                None => total_power(self@.ledger) > u64::MAX,
            },
    {
        self.ledger.checked_total()
    }

    /// The sum of all voting power as the ledger has it now.
    pub fn calculate_total_voting_power(&self) -> (total: u64)
        requires
            total_power(self@.ledger) <= u64::MAX,
        ensures
            total == total_power(self@.ledger),
    {
        self.ledger.total()
    }

    /// The proposal held under `proposal_id`, if there is one.
    pub fn get_proposal(&self, proposal_id: u64) -> (found: Option<Proposal>)
        requires
            self.wf(),
        ensures
            proposal_option_view(found) == self@.proposal(proposal_id),
    {
        self.store.get(proposal_id)
    }

    /// All proposals, by ascending identifier.
    pub fn get_all_proposals(&self) -> (list: Vec<Proposal>)
        ensures
            proposal_views(list@) == self@.proposals,
    {
        self.store.all()
    }

    /// The proposals that are open, by ascending identifier.
    pub fn get_open_proposals(&self) -> (list: Vec<Proposal>)
        ensures
            proposal_views(list@) == self@.proposals.filter(
                |p: ProposalView| p.status == ProposalStatus::Open,
            ),
    {
        self.store.with_status(ProposalStatus::Open)
    }

    /// The proposals whose status is `status`, by ascending identifier.
    pub fn get_proposals_with_status(&self, status: ProposalStatus) -> (list: Vec<Proposal>)
        ensures
            proposal_views(list@) == self@.proposals.filter(|p: ProposalView| p.status == status),
    {
        self.store.with_status(status)
    }

    /// The proposals submitted by `proposer`, by ascending identifier.
    pub fn get_proposals_by_proposer(&self, proposer: &Identity) -> (list: Vec<Proposal>)
        ensures
            proposal_views(list@) == self@.proposals.filter(
                |p: ProposalView| p.proposer == proposer@,
            ),
    {
        self.store.by_proposer(proposer)
    }

    /// The votes of `user`, by proposal.
    pub fn get_user_votes(&self, user: &Identity) -> (list: Vec<Vote>)
        requires
            self.wf(),
        ensures
            vote_views(list@) == self@.votes.filter(|v: VoteView| v.voter == user@),
    {
        self.votes.by_voter(user)
    }

    /// The votes on the proposal `proposal_id`, by voter.
    pub fn get_proposal_votes(&self, proposal_id: u64) -> (list: Vec<Vote>)
        requires
            self.wf(),
        ensures
            vote_views(list@) == self@.votes.filter(|v: VoteView| v.proposal_id == proposal_id),
    {
        self.votes.for_proposal(proposal_id)
    }
}

} // verus!

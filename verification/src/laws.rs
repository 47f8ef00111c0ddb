//! What holds of the engine whatever it is asked to do.

use vstd::prelude::*;
use crate::error::{GovernanceErrorView, StateFault};
use crate::preservation::{lemma_push_keeps_slots, lemma_run_keeps_inv, lemma_update_keeps_slots};
use crate::ledger::{lemma_power_fits, power_of, total_power};
use crate::model::{
    apply, backed_by, begin_refusal, complete_refusal, follows, initial, moved_on, proposal_in_order, run,
    run_within_limits, steps_to, submit_refusal, vote_in_order, vote_refusal, votes_as_backed,
    within_limits,
    Action, GovernanceView,
};
use crate::store::{has_id, slot_of};
use crate::tally::verdict_of;
use crate::types::{DAOConfig, ProposalStatus, VoteOption, VoteView, VotingPowerView};
use crate::votes::{
    cast_power, distinct_ballots, has_voted, lemma_cast_power_remove, lemma_with_vote_distinct,
};

verus! {

/// The engine starts in order.
pub proof fn law_engine_starts_in_order(config: DAOConfig)
    ensures
        initial(config).inv(),
{
}

/// The engine stays in order: after any sequence of actions from the start
/// there is one record per participant, one proposal per identifier, one
/// vote per proposal and voter, and every tally is the power cast.
pub proof fn law_engine_stays_in_order(config: DAOConfig, actions: Seq<Action>)
    requires
        run_within_limits(initial(config), actions),
    ensures
        run(initial(config), actions).inv(),
{
    lemma_run_keeps_inv(initial(config), actions);
}

/// Exactly-once voting: after any sequence of actions from the start, no
/// two votes on record are by the same voter on the same proposal.
pub proof fn law_one_vote_per_voter(
    config: DAOConfig,
    actions: Seq<Action>,
    i: int,
    j: int,
)
    requires
        run_within_limits(initial(config), actions),
        0 <= i < run(initial(config), actions).votes.len(),
        0 <= j < run(initial(config), actions).votes.len(),
        i != j,
    ensures
        !(run(initial(config), actions).votes[i].proposal_id == run(
            initial(config),
            actions,
        ).votes[j].proposal_id && run(initial(config), actions).votes[i].voter == run(
            initial(config),
            actions,
        ).votes[j].voter),
{
    lemma_run_keeps_inv(initial(config), actions);
    let votes = run(initial(config), actions).votes;
    if i < j {
        assert(!(votes[i].proposal_id == votes[j].proposal_id && votes[i].voter == votes[j].voter));
    } else {
        assert(!(votes[j].proposal_id == votes[i].proposal_id && votes[j].voter == votes[i].voter));
    }
}

/// A vote by a voter who has one on the proposal already is turned down,
/// and changes neither the votes nor any tally.
pub proof fn law_second_vote_is_refused(
    pre: GovernanceView,
    proposal_id: u64,
    voter: Seq<u8>,
    option: VoteOption,
    now: u64,
)
    requires
        has_voted(pre.votes, proposal_id, voter),
    ensures
        vote_refusal(pre, proposal_id, voter, now) is Some,
        apply(pre, Action::Vote { proposal_id, voter, option, now }) == pre,
{
}

/// One action moves the status of a proposal by at most one step, and a
/// proposal that an action creates is open.
pub proof fn law_status_steps(pre: GovernanceView, action: Action, id: u64)
    requires
        pre.inv(),
        within_limits(pre, action),
    ensures
        has_id(pre.proposals, id) ==> has_id(apply(pre, action).proposals, id),
        has_id(pre.proposals, id) ==> {
            let before = pre.proposals[slot_of(pre.proposals, id)].status;
            let after = apply(pre, action).proposals[slot_of(apply(pre, action).proposals, id)].status;
            before == after || steps_to(before, after)
        },
        !has_id(pre.proposals, id) && has_id(apply(pre, action).proposals, id) ==> apply(
            pre,
            action,
        ).proposals[slot_of(apply(pre, action).proposals, id)].status == ProposalStatus::Open,
{
    let post = apply(pre, action);
    match action {
        Action::Submit { proposer, .. } => {
            if submit_refusal(pre, proposer) is None {
                let created = post.proposals[pre.proposals.len() as int];
                assert forall|i: int| 0 <= i < pre.proposals.len() implies (
                #[trigger] pre.proposals[i]).id < created.id by {}
                lemma_push_keeps_slots(pre.proposals, created);
                if has_id(pre.proposals, id) {
                    let slot = slot_of(pre.proposals, id);
                    assert(post.proposals[slot] == pre.proposals[slot]);
                } else if has_id(post.proposals, id) {
                    let slot = slot_of(post.proposals, id);
                    if slot < pre.proposals.len() {
                        assert(pre.proposals[slot].id == id);
                    }
                }
            }
        },
        Action::Vote { proposal_id, voter, option, now } => {
            if vote_refusal(pre, proposal_id, voter, now) is None {
                let at = slot_of(pre.proposals, proposal_id);
                lemma_update_keeps_slots(pre.proposals, at, post.proposals[at]);
                if has_id(pre.proposals, id) {
                    let slot = slot_of(pre.proposals, id);
                    if slot != at {
                        assert(post.proposals[slot] == pre.proposals[slot]);
                    }
                }
            }
        },
        Action::BeginExecution { proposal_id, now } => {
            if begin_refusal(pre, proposal_id, now) is None {
                let at = slot_of(pre.proposals, proposal_id);
                lemma_update_keeps_slots(pre.proposals, at, post.proposals[at]);
                if has_id(pre.proposals, id) {
                    let slot = slot_of(pre.proposals, id);
                    if slot != at {
                        assert(post.proposals[slot] == pre.proposals[slot]);
                    }
                }
            }
        },
        Action::CompleteExecution { proposal_id, reply } => {
            if complete_refusal(pre, proposal_id) is None {
                let at = slot_of(pre.proposals, proposal_id);
                lemma_update_keeps_slots(pre.proposals, at, post.proposals[at]);
                if has_id(pre.proposals, id) {
                    let slot = slot_of(pre.proposals, id);
                    if slot != at {
                        assert(post.proposals[slot] == pre.proposals[slot]);
                    }
                }
            }
        },
        Action::SetVotingPower { .. } => {},
        Action::SetConfig { .. } => {},
    }
}

/// What a proposal was submitted with stays: no action changes anything of
/// a proposal on record but its status and its tallies, and no action
/// lowers a tally. The frozen total, the deadline and the delay are those
/// of the submission, whatever is written to the ledger or the parameters
/// afterwards.
pub proof fn law_proposal_is_frozen(pre: GovernanceView, action: Action, id: u64)
    requires
        pre.inv(),
        within_limits(pre, action),
        has_id(pre.proposals, id),
    ensures
        has_id(apply(pre, action).proposals, id),
        moved_on(
            pre.proposals[slot_of(pre.proposals, id)],
            apply(pre, action).proposals[slot_of(apply(pre, action).proposals, id)],
        ),
{
    let post = apply(pre, action);
    let slot = slot_of(pre.proposals, id);
    match action {
        Action::Submit { proposer, .. } => {
            if submit_refusal(pre, proposer) is None {
                let created = post.proposals[pre.proposals.len() as int];
                assert forall|i: int| 0 <= i < pre.proposals.len() implies (
                #[trigger] pre.proposals[i]).id < created.id by {}
                lemma_push_keeps_slots(pre.proposals, created);
                assert(post.proposals[slot] == pre.proposals[slot]);
            }
        },
        Action::Vote { proposal_id, voter, option, now } => {
            if vote_refusal(pre, proposal_id, voter, now) is None {
                let at = slot_of(pre.proposals, proposal_id);
                lemma_update_keeps_slots(pre.proposals, at, post.proposals[at]);
                lemma_power_fits(pre.ledger, voter);
                if slot != at {
                    assert(post.proposals[slot] == pre.proposals[slot]);
                }
            }
        },
        Action::BeginExecution { proposal_id, now } => {
            if begin_refusal(pre, proposal_id, now) is None {
                let at = slot_of(pre.proposals, proposal_id);
                lemma_update_keeps_slots(pre.proposals, at, post.proposals[at]);
                if slot != at {
                    assert(post.proposals[slot] == pre.proposals[slot]);
                }
            }
        },
        Action::CompleteExecution { proposal_id, reply } => {
            if complete_refusal(pre, proposal_id) is None {
                let at = slot_of(pre.proposals, proposal_id);
                lemma_update_keeps_slots(pre.proposals, at, post.proposals[at]);
                if slot != at {
                    assert(post.proposals[slot] == pre.proposals[slot]);
                }
            }
        },
        Action::SetVotingPower { .. } => {},
        Action::SetConfig { .. } => {},
    }
}

/// A vote on record stays on record as it is: no action removes or changes
/// a vote.
pub proof fn law_votes_are_kept(pre: GovernanceView, action: Action, i: int)
    requires
        pre.inv(),
        0 <= i < pre.votes.len(),
    ensures
        apply(pre, action).votes.contains(pre.votes[i]),
{
    let post = apply(pre, action);
    match action {
        Action::Vote { proposal_id, voter, option, now } => {
            if vote_refusal(pre, proposal_id, voter, now) is None {
                let cast = VoteView {
                    proposal_id,
                    voter,
                    vote: option,
                    voting_power: pre.power(voter) as u64,
                    timestamp: now,
                };
                lemma_with_vote_distinct(pre.votes, cast);
            } else {
                assert(post.votes[i] == pre.votes[i]);
            }
        },
        _ => {
            assert(post.votes[i] == pre.votes[i]);
        },
    }
}

/// The way of a status leads one way only: what follows what follows a
/// status follows that status, nothing but open is followed by open, and
/// rejected, executed and failed are followed by nothing but themselves.
pub proof fn law_status_one_way(a: ProposalStatus, b: ProposalStatus, c: ProposalStatus)
    ensures
        steps_to(a, b) ==> follows(a, b),
        follows(a, b) && follows(b, c) ==> follows(a, c),
        follows(a, ProposalStatus::Open) ==> a == ProposalStatus::Open,
        follows(ProposalStatus::Rejected, b) ==> b == ProposalStatus::Rejected,
        follows(ProposalStatus::Executed, b) ==> b == ProposalStatus::Executed,
        follows(ProposalStatus::Failed, b) ==> b == ProposalStatus::Failed,
{
}

/// Status transitions are monotonic: the status that a proposal has at
/// some point of a sequence of actions is followed, on the way from open by
/// passed or rejected to executed or failed, by every status that it has
/// later in the sequence.
pub proof fn law_status_only_advances(
    start: GovernanceView,
    actions: Seq<Action>,
    earlier: int,
    id: u64,
)
    requires
        start.inv(),
        run_within_limits(start, actions),
        0 <= earlier <= actions.len(),
        has_id(run(start, actions.take(earlier)).proposals, id),
    ensures
        has_id(run(start, actions).proposals, id),
        follows(
            run(start, actions.take(earlier)).proposals[slot_of(
                run(start, actions.take(earlier)).proposals,
                id,
            )].status,
            run(start, actions).proposals[slot_of(run(start, actions).proposals, id)].status,
        ),
    decreases actions.len(),
{
    if earlier == actions.len() {
        assert(actions.take(earlier) =~= actions);
    } else {
        let shorter = actions.drop_last();
        assert forall|k: int| 0 <= k < shorter.len() implies within_limits(
            run(start, shorter.take(k)),
            #[trigger] shorter[k],
        ) by {
            assert(shorter.take(k) =~= actions.take(k));
            assert(shorter[k] == actions[k]);
        }
        assert(shorter.take(earlier) =~= actions.take(earlier));
        law_status_only_advances(start, shorter, earlier, id);
        lemma_run_keeps_inv(start, shorter);
        assert(actions.take(actions.len() - 1) =~= shorter);
        assert(actions.last() == actions[actions.len() - 1]);
        law_status_steps(run(start, shorter), actions.last(), id);
        let first = run(start, actions.take(earlier)).proposals[slot_of(
            run(start, actions.take(earlier)).proposals,
            id,
        )].status;
        let middle = run(start, shorter).proposals[slot_of(run(start, shorter).proposals, id)].status;
        let last = run(start, actions).proposals[slot_of(run(start, actions).proposals, id)].status;
        law_status_one_way(middle, last, last);
        law_status_one_way(first, middle, last);
    }
}

/// An execution is started once: when the start of an execution has been
/// accepted, the proposal has left the passed state, and another start is
/// turned down, at whatever time it is asked for and whether or not the
/// first has been concluded.
pub proof fn law_execution_starts_once(pre: GovernanceView, proposal_id: u64, now: u64, later: u64)
    requires
        pre.inv(),
        begin_refusal(pre, proposal_id, now) is None,
    ensures
        begin_refusal(
            apply(pre, Action::BeginExecution { proposal_id, now }),
            proposal_id,
            later,
        ) == Some(GovernanceErrorView::State(StateFault::NotPassed)),
{
    let action = Action::BeginExecution { proposal_id, now };
    let post = apply(pre, action);
    let at = slot_of(pre.proposals, proposal_id);
    lemma_update_keeps_slots(pre.proposals, at, post.proposals[at]);
}

/// Execution waits for the delay and for nothing longer: the start of the
/// execution of a passed proposal is turned down as too early at every
/// time before `voting_deadline + execution_delay`, and is accepted at that
/// time and at every later one.
pub proof fn law_execution_waits_for_delay(pre: GovernanceView, proposal_id: u64, now: u64)
    requires
        has_id(pre.proposals, proposal_id),
        pre.proposals[slot_of(pre.proposals, proposal_id)].status == ProposalStatus::Passed,
    ensures
        ({
            let proposal = pre.proposals[slot_of(pre.proposals, proposal_id)];
            if now < proposal.voting_deadline + proposal.execution_delay {
                begin_refusal(pre, proposal_id, now) == Some(
                    GovernanceErrorView::State(StateFault::DelayNotElapsed),
                )
            } else {
                begin_refusal(pre, proposal_id, now) is None
            }
        }),
{
}

/// The power cast on a side of a proposal does not depend on the order in
/// which the votes were recorded.
pub proof fn law_tally_ignores_order(a: Seq<VoteView>, b: Seq<VoteView>, id: u64, side: VoteOption)
    requires
        a.to_multiset() == b.to_multiset(),
    ensures
        cast_power(a, id, side) == cast_power(b, id, side),
    decreases a.len(),
{
    a.to_multiset_ensures();
    b.to_multiset_ensures();
    if a.len() > 0 {
        let vote = a.last();
        assert(a.contains(vote)) by {
            assert(a[a.len() - 1] == vote);
        }
        assert(a.to_multiset().count(vote) > 0);
        assert(b.to_multiset().count(vote) > 0);
        assert(b.contains(vote));
        let at = choose|k: int| 0 <= k < b.len() && b[k] == vote;
        let shorter_a = a.remove(a.len() - 1);
        let shorter_b = b.remove(at);
        assert(shorter_a =~= a.drop_last());
        assert(shorter_a.to_multiset() =~= a.to_multiset().remove(vote));
        assert(shorter_b.to_multiset() =~= b.to_multiset().remove(vote));
        law_tally_ignores_order(shorter_a, shorter_b, id, side);
        lemma_cast_power_remove(b, at, id, side);
    } else {
        assert(b.len() == 0);
    }
}

/// The verdict on a proposal is a function of the two tallies, the frozen
/// total and the two thresholds: the same votes, recorded in any order,
/// give the same verdict.
pub proof fn law_verdict_ignores_order(
    a: Seq<VoteView>,
    b: Seq<VoteView>,
    id: u64,
    total_voting_power: nat,
    quorum_threshold: nat,
    pass_threshold: nat,
)
    requires
        a.to_multiset() == b.to_multiset(),
    ensures
        verdict_of(
            cast_power(a, id, VoteOption::For),
            cast_power(a, id, VoteOption::Against),
            total_voting_power,
            quorum_threshold,
            pass_threshold,
        ) == verdict_of(
            cast_power(b, id, VoteOption::For),
            cast_power(b, id, VoteOption::Against),
            total_voting_power,
            quorum_threshold,
            pass_threshold,
        ),
{
    law_tally_ignores_order(a, b, id, VoteOption::For);
    law_tally_ignores_order(a, b, id, VoteOption::Against);
}

/// The power that a ledger holds for the voters of a proposal, each voter
/// counted with every vote it has on the proposal.
pub open spec fn backing(votes: Seq<VoteView>, id: u64, ledger: Seq<VotingPowerView>) -> nat
    decreases votes.len(),
{
    if votes.len() == 0 {
        0
    } else {
        backing(votes.drop_last(), id, ledger) + if votes.last().proposal_id == id {
            power_of(ledger, votes.last().voter)
        } else {
            0
        }
    }
}

/// An empty ledger backs nothing.
proof fn lemma_backing_of_nothing(votes: Seq<VoteView>, id: u64)
    ensures
        backing(votes, id, Seq::empty()) == 0,
    decreases votes.len(),
{
    if votes.len() > 0 {
        lemma_backing_of_nothing(votes.drop_last(), id);
    }
}

/// One more record backs the votes by at most its own power, and by
/// nothing where its holder has no vote on the proposal.
proof fn lemma_backing_grows(votes: Seq<VoteView>, id: u64, ledger: Seq<VotingPowerView>)
    requires
        distinct_ballots(votes),
        ledger.len() > 0,
    ensures
        backing(votes, id, ledger) <= backing(votes, id, ledger.drop_last()) + if has_voted(
            votes,
            id,
            ledger.last().holder,
        ) {
            ledger.last().power as nat
        } else {
            0
        },
    decreases votes.len(),
{
    if votes.len() > 0 {
        let rest = votes.drop_last();
        let vote = votes.last();
        let holder = ledger.last().holder;
        assert(vote == votes[votes.len() - 1]);
        assert(distinct_ballots(rest)) by {
            assert forall|i: int, j: int| 0 <= i < j < rest.len() implies !((
            #[trigger] rest[i]).proposal_id == (#[trigger] rest[j]).proposal_id && rest[i].voter
                == rest[j].voter) by {
                assert(rest[i] == votes[i] && rest[j] == votes[j]);
            }
        }
        lemma_backing_grows(rest, id, ledger);
        if has_voted(rest, id, holder) {
            let k = choose|k: int|
                0 <= k < rest.len() && (#[trigger] rest[k]).proposal_id == id && rest[k].voter
                    == holder;
            assert(votes[k] == rest[k]);
            assert(has_voted(votes, id, holder));
            assert(!(vote.proposal_id == id && vote.voter == holder)) by {
                assert(!(votes[k].proposal_id == votes[votes.len() - 1].proposal_id
                    && votes[k].voter == votes[votes.len() - 1].voter));
            }
        }
        if vote.proposal_id == id && vote.voter == holder {
            assert(has_voted(votes, id, holder));
        }
    }
}

/// The voters of a proposal, none of them counted twice, hold no more than
/// the ledger holds in all.
pub proof fn lemma_backing_within_total(votes: Seq<VoteView>, id: u64, ledger: Seq<VotingPowerView>)
    requires
        distinct_ballots(votes),
    ensures
        backing(votes, id, ledger) <= total_power(ledger),
    decreases ledger.len(),
{
    if ledger.len() == 0 {
        assert(ledger =~= Seq::empty());
        lemma_backing_of_nothing(votes, id);
    } else {
        lemma_backing_grows(votes, id, ledger);
        lemma_backing_within_total(votes, id, ledger.drop_last());
    }
}

/// Where no vote on a proposal carries more power than the ledger holds
/// for its voter, the two tallies together are no more than the backing.
proof fn lemma_tally_within_backing(votes: Seq<VoteView>, id: u64, ledger: Seq<VotingPowerView>)
    requires
        forall|i: int|
            0 <= i < votes.len() && (#[trigger] votes[i]).proposal_id == id
                ==> votes[i].voting_power <= power_of(ledger, votes[i].voter),
    ensures
        cast_power(votes, id, VoteOption::For) + cast_power(votes, id, VoteOption::Against)
            <= backing(votes, id, ledger),
    decreases votes.len(),
{
    if votes.len() > 0 {
        let rest = votes.drop_last();
        assert(votes.last() == votes[votes.len() - 1]);
        assert forall|i: int| 0 <= i < rest.len() && (#[trigger] rest[i]).proposal_id
            == id implies rest[i].voting_power <= power_of(ledger, rest[i].voter) by {
            assert(rest[i] == votes[i]);
        }
        lemma_tally_within_backing(rest, id, ledger);
    }
}

/// The tallies of a proposal do not exceed its frozen total where a ledger
/// stands behind it: where the frozen total is the total of a ledger that
/// holds, for every voter on the proposal, at least the power of their
/// vote, votes cast for and against together are no more than
/// `total_voting_power`.
pub proof fn law_tally_within_total(state: GovernanceView, id: u64, snapshot: Seq<VotingPowerView>)
    requires
        state.inv(),
        backed_by(state, id, snapshot),
    ensures
        state.proposals[slot_of(state.proposals, id)].votes_for + state.proposals[slot_of(
            state.proposals,
            id,
        )].votes_against <= state.proposals[slot_of(state.proposals, id)].total_voting_power,
{
    let proposal = state.proposals[slot_of(state.proposals, id)];
    assert(proposal.id == id);
    assert(proposal_in_order(state.votes, proposal));
    lemma_tally_within_backing(state.votes, id, snapshot);
    lemma_backing_within_total(state.votes, id, snapshot);
}

/// A proposal is submitted with the ledger of that moment behind it.
pub proof fn law_submission_is_backed(pre: GovernanceView, action: Action)
    requires
        pre.inv(),
        within_limits(pre, action),
        action matches Action::Submit { proposer, .. } && submit_refusal(pre, proposer) is None,
    ensures
        backed_by(apply(pre, action), (pre.last_id + 1) as u64, pre.ledger),
{
    let post = apply(pre, action);
    let created = post.proposals[pre.proposals.len() as int];
    assert forall|i: int| 0 <= i < pre.proposals.len() implies (#[trigger] pre.proposals[i]).id
        < created.id by {}
    lemma_push_keeps_slots(pre.proposals, created);
    assert forall|i: int| 0 <= i < post.votes.len() implies (#[trigger] post.votes[i]).proposal_id
        != created.id by {
        assert(vote_in_order(pre.proposals, pre.votes[i]));
        let slot = slot_of(pre.proposals, pre.votes[i].proposal_id);
        assert(pre.proposals[slot].id < created.id);
    }
}

/// A ledger that stands behind a proposal goes on to stand behind it
/// through every action but a vote on the proposal by a voter who holds
/// more power now than that ledger holds for them.
pub proof fn law_backing_lasts(
    pre: GovernanceView,
    action: Action,
    id: u64,
    snapshot: Seq<VotingPowerView>,
)
    requires
        pre.inv(),
        within_limits(pre, action),
        backed_by(pre, id, snapshot),
        votes_as_backed(pre, action, id, snapshot),
    ensures
        backed_by(apply(pre, action), id, snapshot),
{
    let post = apply(pre, action);
    law_proposal_is_frozen(pre, action, id);
    match action {
        Action::Vote { proposal_id, voter, option, now } => {
            if vote_refusal(pre, proposal_id, voter, now) is None {
                lemma_power_fits(pre.ledger, voter);
                let cast = VoteView {
                    proposal_id,
                    voter,
                    vote: option,
                    voting_power: pre.power(voter) as u64,
                    timestamp: now,
                };
                lemma_with_vote_distinct(pre.votes, cast);
                assert forall|i: int| 0 <= i < post.votes.len() && (
                #[trigger] post.votes[i]).proposal_id == id implies post.votes[i].voting_power
                    <= power_of(snapshot, post.votes[i].voter) by {
                    let vote = post.votes[i];
                    if vote != cast {
                        assert(pre.votes.contains(vote));
                        let was = choose|w: int| 0 <= w < pre.votes.len() && pre.votes[w] == vote;
                        assert(pre.votes[was].proposal_id == id);
                    }
                }
            }
        },
        _ => {},
    }
}

/// The tallies of a proposal stay within its frozen total through any
/// sequence of actions in which nobody votes on the proposal with more
/// power than the ledger held for them when the proposal was submitted:
/// from a state in which a ledger stands behind the proposal, votes for and
/// against never sum to more than `total_voting_power`.
pub proof fn law_tally_stays_within_total(
    start: GovernanceView,
    actions: Seq<Action>,
    id: u64,
    snapshot: Seq<VotingPowerView>,
)
    requires
        start.inv(),
        backed_by(start, id, snapshot),
        run_within_limits(start, actions),
        forall|k: int|
            0 <= k < actions.len() ==> votes_as_backed(
                run(start, actions.take(k)),
                #[trigger] actions[k],
                id,
                snapshot,
            ),
    ensures
        backed_by(run(start, actions), id, snapshot),
        run(start, actions).proposals[slot_of(run(start, actions).proposals, id)].votes_for + run(
            start,
            actions,
        ).proposals[slot_of(run(start, actions).proposals, id)].votes_against <= run(
            start,
            actions,
        ).proposals[slot_of(run(start, actions).proposals, id)].total_voting_power,
    decreases actions.len(),
{
    if actions.len() > 0 {
        let shorter = actions.drop_last();
        assert forall|k: int| 0 <= k < shorter.len() implies within_limits(
            run(start, shorter.take(k)),
            #[trigger] shorter[k],
        ) by {
            assert(shorter.take(k) =~= actions.take(k));
            assert(shorter[k] == actions[k]);
        }
        assert forall|k: int| 0 <= k < shorter.len() implies votes_as_backed(
            run(start, shorter.take(k)),
            #[trigger] shorter[k],
            id,
            snapshot,
        ) by {
            assert(shorter.take(k) =~= actions.take(k));
            assert(shorter[k] == actions[k]);
        }
        law_tally_stays_within_total(start, shorter, id, snapshot);
        lemma_run_keeps_inv(start, shorter);
        assert(actions.take(actions.len() - 1) =~= shorter);
        assert(actions.last() == actions[actions.len() - 1]);
        law_backing_lasts(run(start, shorter), actions.last(), id, snapshot);
    }
    lemma_run_keeps_inv(start, actions);
    law_tally_within_total(run(start, actions), id, snapshot);
}

} // verus!

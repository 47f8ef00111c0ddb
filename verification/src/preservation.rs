//! The invariant of the engine is kept by every action.

use vstd::prelude::*;
use crate::dispatch::outcome_of;
use crate::ledger::{distinct_holders, holds, lemma_power_fits, with_record};
use crate::model::{
    apply, begin_refusal, complete_refusal, proposal_in_order, run, run_within_limits,
    status_concluded, submit_refusal, vote_in_order, vote_refusal, voted, with_status,
    within_limits, Action, GovernanceView,
};
use crate::store::{allocated, ascending, has_id, lemma_slot, slot_of};
use crate::types::{ProposalStatus, ProposalView, VoteOption, VoteView, VotingPowerView};
use crate::votes::{
    cast_power, counts, lemma_cast_power_with_vote, lemma_with_vote_ascending,
    lemma_with_vote_distinct, with_vote,
};

verus! {

/// A proposal nobody has voted on has no power cast on either side.
pub proof fn lemma_no_votes_no_power(votes: Seq<VoteView>, id: u64, side: VoteOption)
    requires
        forall|i: int| 0 <= i < votes.len() ==> (#[trigger] votes[i]).proposal_id != id,
    ensures
        cast_power(votes, id, side) == 0,
    decreases votes.len(),
{
    if votes.len() > 0 {
        let rest = votes.drop_last();
        assert(votes.last() == votes[votes.len() - 1]);
        assert forall|i: int| 0 <= i < rest.len() implies (#[trigger] rest[i]).proposal_id != id by {
            assert(rest[i] == votes[i]);
        }
        lemma_no_votes_no_power(rest, id, side);
    }
}

/// Writing a record leaves one record per participant.
pub proof fn lemma_with_record_distinct(entries: Seq<VotingPowerView>, record: VotingPowerView)
    requires
        distinct_holders(entries),
    ensures
        distinct_holders(with_record(entries, record)),
{
    let after = with_record(entries, record);
    if holds(entries, record.holder) {
        let at = choose|i: int|
            0 <= i < entries.len() && (#[trigger] entries[i]).holder == record.holder;
        assert forall|i: int, j: int| 0 <= i < j < after.len() implies (#[trigger] after[i]).holder
            != (#[trigger] after[j]).holder by {
            assert(after[i].holder == entries[i].holder);
            assert(after[j].holder == entries[j].holder);
        }
    } else {
        assert forall|i: int, j: int| 0 <= i < j < after.len() implies (#[trigger] after[i]).holder
            != (#[trigger] after[j]).holder by {
            assert(after[i] == entries[i]);
            if j < entries.len() {
                assert(after[j] == entries[j]);
            }
        }
    }
}

/// Replacing a proposal by one with the same identifier moves nothing:
/// every identifier is found where it was.
pub proof fn lemma_update_keeps_slots(items: Seq<ProposalView>, at: int, proposal: ProposalView)
    requires
        ascending(items),
        0 <= at < items.len(),
        proposal.id == items[at].id,
    ensures
        ascending(items.update(at, proposal)),
        forall|id: u64| has_id(items, id) <==> #[trigger] has_id(items.update(at, proposal), id),
        forall|id: u64|
            has_id(items, id) ==> #[trigger] slot_of(items.update(at, proposal), id) == slot_of(
                items,
                id,
            ),
{
    let after = items.update(at, proposal);
    assert forall|i: int, j: int| 0 <= i < j < after.len() implies (#[trigger] after[i]).id < (
    #[trigger] after[j]).id by {
        assert(after[i].id == items[i].id);
        assert(after[j].id == items[j].id);
    }
    assert forall|id: u64| has_id(items, id) <==> #[trigger] has_id(after, id) by {
        if has_id(items, id) {
            let k = slot_of(items, id);
            assert(after[k].id == id);
        }
        if has_id(after, id) {
            let k = slot_of(after, id);
            assert(items[k].id == id);
        }
    }
    assert forall|id: u64| has_id(items, id) implies #[trigger] slot_of(after, id) == slot_of(
        items,
        id,
    ) by {
        let k = slot_of(items, id);
        assert(after[k].id == id);
        lemma_slot(after, k);
    }
}

/// Adding a proposal with an identifier above all others moves nothing.
pub proof fn lemma_push_keeps_slots(items: Seq<ProposalView>, proposal: ProposalView)
    requires
        ascending(items),
        forall|i: int| 0 <= i < items.len() ==> (#[trigger] items[i]).id < proposal.id,
    ensures
        ascending(items.push(proposal)),
        forall|id: u64| has_id(items, id) ==> #[trigger] has_id(items.push(proposal), id),
        forall|id: u64|
            has_id(items, id) ==> #[trigger] slot_of(items.push(proposal), id) == slot_of(items, id),
        has_id(items.push(proposal), proposal.id),
        slot_of(items.push(proposal), proposal.id) == items.len(),
{
    let after = items.push(proposal);
    assert forall|i: int, j: int| 0 <= i < j < after.len() implies (#[trigger] after[i]).id < (
    #[trigger] after[j]).id by {
        assert(after[i] == items[i]);
        if j < items.len() {
            assert(after[j] == items[j]);
        }
    }
    assert forall|id: u64| has_id(items, id) implies #[trigger] has_id(after, id) by {
        let k = slot_of(items, id);
        assert(after[k] == items[k]);
    }
    assert forall|id: u64| has_id(items, id) implies #[trigger] slot_of(after, id) == slot_of(
        items,
        id,
    ) by {
        let k = slot_of(items, id);
        assert(after[k] == items[k]);
        lemma_slot(after, k);
    }
    assert(after[items.len() as int] == proposal);
    lemma_slot(after, items.len() as int);
}

/// A submission that is not turned down leaves the state in order.
proof fn lemma_submit_keeps_inv(pre: GovernanceView, action: Action)
    requires
        pre.inv(),
        within_limits(pre, action),
        action matches Action::Submit { proposer, .. } && submit_refusal(pre, proposer) is None,
    ensures
        apply(pre, action).inv(),
{
    let post = apply(pre, action);
    let created = post.proposals[pre.proposals.len() as int];
    assert(created.id == pre.last_id + 1);
    assert forall|i: int| 0 <= i < pre.proposals.len() implies (#[trigger] pre.proposals[i]).id
        < created.id by {}
    lemma_push_keeps_slots(pre.proposals, created);
    assert(allocated(post.proposals, post.last_id)) by {
        assert forall|i: int| 0 <= i < post.proposals.len() implies 1 <= (
        #[trigger] post.proposals[i]).id <= post.last_id by {
            if i < pre.proposals.len() {
                assert(post.proposals[i] == pre.proposals[i]);
            }
        }
    }
    assert forall|i: int| 0 <= i < post.votes.len() implies vote_in_order(
        post.proposals,
        #[trigger] post.votes[i],
    ) by {
        let vote = pre.votes[i];
        assert(vote_in_order(pre.proposals, vote));
        let slot = slot_of(pre.proposals, vote.proposal_id);
        assert(slot_of(post.proposals, vote.proposal_id) == slot);
        assert(post.proposals[slot] == pre.proposals[slot]);
    }
    assert forall|k: int| 0 <= k < post.proposals.len() implies proposal_in_order(
        post.votes,
        #[trigger] post.proposals[k],
    ) by {
        if k < pre.proposals.len() {
            assert(post.proposals[k] == pre.proposals[k]);
            assert(proposal_in_order(pre.votes, pre.proposals[k]));
        } else {
            assert forall|i: int| 0 <= i < pre.votes.len() implies (
            #[trigger] pre.votes[i]).proposal_id != created.id by {
                assert(vote_in_order(pre.proposals, pre.votes[i]));
                let slot = slot_of(pre.proposals, pre.votes[i].proposal_id);
                assert(pre.proposals[slot].id < created.id);
            }
            lemma_no_votes_no_power(pre.votes, created.id, VoteOption::For);
            lemma_no_votes_no_power(pre.votes, created.id, VoteOption::Against);
        }
    }
}

/// A vote that is not turned down leaves the state in order.
proof fn lemma_vote_keeps_inv(
    pre: GovernanceView,
    id: u64,
    voter: Seq<u8>,
    option: VoteOption,
    now: u64,
)
    requires
        pre.inv(),
        within_limits(pre, Action::Vote { proposal_id: id, voter, option, now }),
        vote_refusal(pre, id, voter, now) is None,
    ensures
        apply(pre, Action::Vote { proposal_id: id, voter, option, now }).inv(),
{
    let post = apply(pre, Action::Vote { proposal_id: id, voter, option, now });
    let slot = slot_of(pre.proposals, id);
    let before = pre.proposals[slot];
    let after = post.proposals[slot];
    let cast = VoteView {
        proposal_id: id,
        voter,
        vote: option,
        voting_power: pre.power(voter) as u64,
        timestamp: now,
    };
    assert(has_id(pre.proposals, id));
    assert(before.id == id);
    lemma_power_fits(pre.ledger, voter);
    assert(after == voted(before, option, pre.power(voter) as u64, pre.config));
    assert(post.votes == with_vote(pre.votes, cast));
    lemma_with_vote_distinct(pre.votes, cast);
    lemma_with_vote_ascending(pre.votes, cast);
    lemma_update_keeps_slots(pre.proposals, slot, after);
    assert(allocated(post.proposals, post.last_id)) by {
        assert forall|i: int| 0 <= i < post.proposals.len() implies 1 <= (
        #[trigger] post.proposals[i]).id <= post.last_id by {
            assert(post.proposals[i].id == pre.proposals[i].id);
        }
    }
    assert forall|i: int| 0 <= i < post.votes.len() implies vote_in_order(
        post.proposals,
        #[trigger] post.votes[i],
    ) by {
        let vote = post.votes[i];
        if vote != cast {
            assert(pre.votes.contains(vote));
            let was = choose|w: int| 0 <= w < pre.votes.len() && pre.votes[w] == vote;
            assert(vote_in_order(pre.proposals, pre.votes[was]));
        }
        let at = slot_of(pre.proposals, vote.proposal_id);
        assert(slot_of(post.proposals, vote.proposal_id) == at);
        assert(post.proposals[at].voting_deadline == pre.proposals[at].voting_deadline);
    }
    assert forall|k: int| 0 <= k < post.proposals.len() implies proposal_in_order(
        post.votes,
        #[trigger] post.proposals[k],
    ) by {
        let held = pre.proposals[k];
        assert(proposal_in_order(pre.votes, held));
        lemma_cast_power_with_vote(pre.votes, cast, held.id, VoteOption::For);
        lemma_cast_power_with_vote(pre.votes, cast, held.id, VoteOption::Against);
        if k != slot {
            assert(post.proposals[k] == held);
            if k < slot {
                assert(pre.proposals[k].id < pre.proposals[slot].id);
            } else {
                assert(pre.proposals[slot].id < pre.proposals[k].id);
            }
            assert(counts(cast, held.id, VoteOption::For) == 0);
            assert(counts(cast, held.id, VoteOption::Against) == 0);
        }
    }
}

/// Setting the status of a proposal leaves the state in order, provided a
/// proposal without a call is not said to be with the executor.
proof fn lemma_status_keeps_inv(pre: GovernanceView, id: u64, status: ProposalStatus)
    requires
        pre.inv(),
        has_id(pre.proposals, id),
        status == ProposalStatus::Executing ==> !pre.proposals[slot_of(
            pre.proposals,
            id,
        )].proposal_type.is_emergency(),
    ensures
        with_status(pre, id, status).inv(),
{
    let post = with_status(pre, id, status);
    let slot = slot_of(pre.proposals, id);
    lemma_update_keeps_slots(pre.proposals, slot, post.proposals[slot]);
    assert(allocated(post.proposals, post.last_id)) by {
        assert forall|i: int| 0 <= i < post.proposals.len() implies 1 <= (
        #[trigger] post.proposals[i]).id <= post.last_id by {
            assert(post.proposals[i].id == pre.proposals[i].id);
        }
    }
    assert forall|i: int| 0 <= i < post.votes.len() implies vote_in_order(
        post.proposals,
        #[trigger] post.votes[i],
    ) by {
        let vote = pre.votes[i];
        assert(vote_in_order(pre.proposals, vote));
        let at = slot_of(pre.proposals, vote.proposal_id);
        assert(slot_of(post.proposals, vote.proposal_id) == at);
        assert(post.proposals[at].voting_deadline == pre.proposals[at].voting_deadline);
    }
    assert forall|k: int| 0 <= k < post.proposals.len() implies proposal_in_order(
        post.votes,
        #[trigger] post.proposals[k],
    ) by {
        assert(proposal_in_order(pre.votes, pre.proposals[k]));
        if k != slot {
            assert(post.proposals[k] == pre.proposals[k]);
        }
    }
}

/// Every action leaves the engine in order: one record per participant,
/// one proposal per identifier and each identifier handed out by the
/// engine, one vote per proposal and voter, every vote cast with power on
/// an existing proposal within its window, every tally equal to the power
/// cast.
pub proof fn lemma_apply_keeps_inv(pre: GovernanceView, action: Action)
    requires
        pre.inv(),
        within_limits(pre, action),
    ensures
        apply(pre, action).inv(),
{
    match action {
        Action::Submit { proposer, .. } => {
            if submit_refusal(pre, proposer) is None {
                lemma_submit_keeps_inv(pre, action);
            }
        },
        Action::Vote { proposal_id, voter, option, now } => {
            if vote_refusal(pre, proposal_id, voter, now) is None {
                lemma_vote_keeps_inv(pre, proposal_id, voter, option, now);
            }
        },
        Action::BeginExecution { proposal_id, now } => {
            if begin_refusal(pre, proposal_id, now) is None {
                let slot = slot_of(pre.proposals, proposal_id);
                if pre.proposals[slot].proposal_type.is_emergency() {
                    lemma_status_keeps_inv(pre, proposal_id, ProposalStatus::Executed);
                } else {
                    lemma_status_keeps_inv(pre, proposal_id, ProposalStatus::Executing);
                }
            }
        },
        Action::CompleteExecution { proposal_id, reply } => {
            if complete_refusal(pre, proposal_id) is None {
                let slot = slot_of(pre.proposals, proposal_id);
                lemma_status_keeps_inv(
                    pre,
                    proposal_id,
                    status_concluded(outcome_of(pre.proposals[slot].proposal_type, reply)),
                );
            }
        },
        Action::SetVotingPower { record } => {
            lemma_with_record_distinct(pre.ledger, record);
        },
        Action::SetConfig { .. } => {},
    }
}

/// Whatever the engine is asked to do, in whatever order, it stays in order.
pub proof fn lemma_run_keeps_inv(start: GovernanceView, actions: Seq<Action>)
    requires
        start.inv(),
        run_within_limits(start, actions),
    ensures
        run(start, actions).inv(),
    decreases actions.len(),
{
    if actions.len() > 0 {
        let earlier = actions.drop_last();
        assert forall|k: int| 0 <= k < earlier.len() implies within_limits(
            run(start, earlier.take(k)),
            #[trigger] earlier[k],
        ) by {
            assert(earlier.take(k) =~= actions.take(k));
            assert(earlier[k] == actions[k]);
        }
        lemma_run_keeps_inv(start, earlier);
        assert(actions.take(actions.len() - 1) =~= earlier);
        assert(actions.last() == actions[actions.len() - 1]);
        lemma_apply_keeps_inv(run(start, earlier), actions.last());
    }
}

} // verus!

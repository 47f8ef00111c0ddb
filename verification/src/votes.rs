//! The record of votes cast: at most one per proposal and voter, kept by
//! proposal and, within a proposal, by voter.

use vstd::prelude::*;
use crate::types::{
    lemma_identity_order, vote_views, Identity, Vote, VoteOption, VoteView, MAX_IDENTITY_BYTES,
};
use crate::vote_tree::{
    has_key, key_before, key_rank, plain_entries, tree_entries, tree_get, tree_insert, tree_new,
    vote_entries, VoteTree,
};

verus! {

/// No two votes are held for the same proposal and voter.
pub open spec fn distinct_ballots(votes: Seq<VoteView>) -> bool {
    forall|i: int, j: int|
        0 <= i < j < votes.len() ==> !((#[trigger] votes[i]).proposal_id == (
        #[trigger] votes[j]).proposal_id && votes[i].voter == votes[j].voter)
}

/// Whether `who` has a vote on proposal `id`.
pub open spec fn has_voted(votes: Seq<VoteView>, id: u64, who: Seq<u8>) -> bool {
    exists|i: int|
        0 <= i < votes.len() && (#[trigger] votes[i]).proposal_id == id && votes[i].voter == who
}

/// The power that `vote` adds to the `side` of proposal `id`.
pub open spec fn counts(vote: VoteView, id: u64, side: VoteOption) -> nat {
    if vote.proposal_id == id && vote.vote == side {
        vote.voting_power as nat
    } else {
        0
    }
}

/// The power cast on the `side` of proposal `id`.
pub open spec fn cast_power(votes: Seq<VoteView>, id: u64, side: VoteOption) -> nat
    decreases votes.len(),
{
    if votes.len() == 0 {
        0
    } else {
        cast_power(votes.drop_last(), id, side) + counts(votes.last(), id, side)
    }
}

/// The order in which votes are kept: by proposal, and within a proposal
/// by the order of the voters' identities.
pub open spec fn ballot_before(a: VoteView, b: VoteView) -> bool {
    key_before((a.proposal_id, a.voter), (b.proposal_id, b.voter))
}

/// How many of the votes come before `vote`: the place at which `vote` is kept.
pub open spec fn vote_rank(votes: Seq<VoteView>, vote: VoteView) -> int
    decreases votes.len(),
{
    if votes.len() == 0 {
        0
    } else {
        vote_rank(votes.drop_last(), vote) + if ballot_before(votes.last(), vote) {
            1int
        } else {
            0int
        }
    }
}

/// The votes after `vote` has been recorded.
pub open spec fn with_vote(votes: Seq<VoteView>, vote: VoteView) -> Seq<VoteView> {
    votes.insert(vote_rank(votes, vote), vote)
}

/// A rank lies within the sequence.
pub proof fn lemma_vote_rank_bounds(votes: Seq<VoteView>, vote: VoteView)
    ensures
        0 <= vote_rank(votes, vote) <= votes.len(),
    decreases votes.len(),
{
    if votes.len() > 0 {
        lemma_vote_rank_bounds(votes.drop_last(), vote);
    }
}

/// Taking a vote out of a sequence takes out what it counts for.
pub proof fn lemma_cast_power_remove(votes: Seq<VoteView>, at: int, id: u64, side: VoteOption)
    requires
        0 <= at < votes.len(),
    ensures
        cast_power(votes, id, side) == cast_power(votes.remove(at), id, side) + counts(
            votes[at],
            id,
            side,
        ),
    decreases votes.len(),
{
    if at == votes.len() - 1 {
        assert(votes.remove(at) =~= votes.drop_last());
    } else {
        assert(votes.remove(at).drop_last() =~= votes.drop_last().remove(at));
        assert(votes.remove(at).last() == votes.last());
        lemma_cast_power_remove(votes.drop_last(), at, id, side);
    }
}

/// One more vote adds what it counts for, and nothing else.
pub proof fn lemma_cast_power_with_vote(
    votes: Seq<VoteView>,
    vote: VoteView,
    id: u64,
    side: VoteOption,
)
    ensures
        cast_power(with_vote(votes, vote), id, side) == cast_power(votes, id, side) + counts(
            vote,
            id,
            side,
        ),
{
    let at = vote_rank(votes, vote);
    lemma_vote_rank_bounds(votes, vote);
    lemma_cast_power_remove(with_vote(votes, vote), at, id, side);
    assert(with_vote(votes, vote).remove(at) =~= votes);
}

/// Recording a vote of a voter who has none on the proposal leaves one vote
/// per proposal and voter, and every vote that was held is still held.
pub proof fn lemma_with_vote_distinct(votes: Seq<VoteView>, vote: VoteView)
    requires
        distinct_ballots(votes),
        !has_voted(votes, vote.proposal_id, vote.voter),
    ensures
        distinct_ballots(with_vote(votes, vote)),
        forall|i: int|
            0 <= i < with_vote(votes, vote).len() ==> #[trigger] with_vote(votes, vote)[i] == vote
                || votes.contains(with_vote(votes, vote)[i]),
        forall|i: int| 0 <= i < votes.len() ==> with_vote(votes, vote).contains(#[trigger] votes[i]),
        with_vote(votes, vote).contains(vote),
{
    let at = vote_rank(votes, vote);
    let after = with_vote(votes, vote);
    lemma_vote_rank_bounds(votes, vote);
    assert forall|i: int| 0 <= i < after.len() implies #[trigger] after[i] == vote
        || votes.contains(after[i]) by {
        if i < at {
            assert(after[i] == votes[i]);
        } else if i > at {
            assert(after[i] == votes[i - 1]);
        }
    }
    assert forall|i: int| 0 <= i < votes.len() implies after.contains(#[trigger] votes[i]) by {
        if i < at {
            assert(after[i] == votes[i]);
        } else {
            assert(after[i + 1] == votes[i]);
        }
    }
    assert(after[at] == vote);
    assert forall|i: int, j: int| 0 <= i < j < after.len() implies !((
    #[trigger] after[i]).proposal_id == (#[trigger] after[j]).proposal_id && after[i].voter
        == after[j].voter) by {
        let from_i = if i < at {
            i
        } else {
            i - 1
        };
        let from_j = if j < at {
            j
        } else {
            j - 1
        };
        if i != at {
            assert(after[i] == votes[from_i]);
        }
        if j != at {
            assert(after[j] == votes[from_j]);
        }
        if i != at && j != at {
            assert(from_i < from_j);
        }
    }
}

/// The votes stand in their order: each comes before all that follow it.
pub open spec fn ascending_ballots(votes: Seq<VoteView>) -> bool {
    forall|i: int, j: int|
        0 <= i < j < votes.len() ==> ballot_before(#[trigger] votes[i], #[trigger] votes[j])
}

/// The order of votes is a strict total order on proposal and voter.
pub proof fn lemma_ballot_order(a: VoteView, b: VoteView, c: VoteView)
    ensures
        !ballot_before(a, a),
        !(a.proposal_id == b.proposal_id && a.voter == b.voter) ==> ballot_before(a, b)
            || ballot_before(b, a),
        ballot_before(a, b) && ballot_before(b, c) ==> ballot_before(a, c),
{
    lemma_identity_order(a.voter, b.voter, c.voter);
}

/// Among votes that stand in their order, those that come before `vote`
/// are the first `vote_rank` of them.
pub proof fn lemma_vote_rank_parts(votes: Seq<VoteView>, vote: VoteView, at: int)
    requires
        ascending_ballots(votes),
        0 <= at < votes.len(),
    ensures
        at < vote_rank(votes, vote) <==> ballot_before(votes[at], vote),
    decreases votes.len(),
{
    let rest = votes.drop_last();
    let last = votes.len() - 1;
    assert(votes.last() == votes[last]);
    lemma_vote_rank_bounds(rest, vote);
    if at < last {
        assert(ascending_ballots(rest)) by {
            assert forall|i: int, j: int| 0 <= i < j < rest.len() implies ballot_before(
                #[trigger] rest[i],
                #[trigger] rest[j],
            ) by {
                assert(rest[i] == votes[i] && rest[j] == votes[j]);
            }
        }
        assert(rest[at] == votes[at]);
        lemma_vote_rank_parts(rest, vote, at);
        if ballot_before(votes[last], vote) {
            // what comes before the last comes before `vote`
            assert(ballot_before(votes[at], votes[last]));
            lemma_ballot_order(votes[at], votes[last], vote);
        }
    } else if ballot_before(votes[last], vote) {
        // every vote comes before `vote`
        assert forall|i: int| 0 <= i < rest.len() implies ballot_before(#[trigger] rest[i], vote) by {
            assert(rest[i] == votes[i]);
            assert(ballot_before(votes[i], votes[last]));
            lemma_ballot_order(votes[i], votes[last], vote);
        }
        lemma_vote_rank_full(rest, vote);
    }
}

/// Where every vote comes before `vote`, its rank is their number.
pub proof fn lemma_vote_rank_full(votes: Seq<VoteView>, vote: VoteView)
    requires
        forall|i: int| 0 <= i < votes.len() ==> ballot_before(#[trigger] votes[i], vote),
    ensures
        vote_rank(votes, vote) == votes.len(),
    decreases votes.len(),
{
    if votes.len() > 0 {
        let rest = votes.drop_last();
        assert(votes.last() == votes[votes.len() - 1]);
        assert forall|i: int| 0 <= i < rest.len() implies ballot_before(#[trigger] rest[i], vote) by {
            assert(rest[i] == votes[i]);
        }
        lemma_vote_rank_full(rest, vote);
    }
}

/// Recording a vote of a voter who has none on the proposal leaves the
/// votes in their order.
pub proof fn lemma_with_vote_ascending(votes: Seq<VoteView>, vote: VoteView)
    requires
        ascending_ballots(votes),
        !has_voted(votes, vote.proposal_id, vote.voter),
    ensures
        ascending_ballots(with_vote(votes, vote)),
{
    let at = vote_rank(votes, vote);
    let after = with_vote(votes, vote);
    lemma_vote_rank_bounds(votes, vote);
    assert forall|i: int, j: int| 0 <= i < j < after.len() implies ballot_before(
        #[trigger] after[i],
        #[trigger] after[j],
    ) by {
        if i == at {
            let from = j - 1;
            assert(after[j] == votes[from]);
            lemma_vote_rank_parts(votes, vote, from);
            assert(!(votes[from].proposal_id == vote.proposal_id && votes[from].voter == vote.voter));
            lemma_ballot_order(votes[from], vote, vote);
        } else if j == at {
            assert(after[i] == votes[i]);
            lemma_vote_rank_parts(votes, vote, i);
        } else {
            let from_i = if i < at {
                i
            } else {
                i - 1
            };
            let from_j = if j < at {
                j
            } else {
                j - 1
            };
            assert(after[i] == votes[from_i]);
            assert(after[j] == votes[from_j]);
            assert(from_i < from_j);
        }
    }
}

/// The vote that an entry of the map stands for.
pub open spec fn ballot_of(entry: ((u64, Seq<u8>), (u8, u64, u64))) -> VoteView {
    VoteView {
        proposal_id: entry.0.0,
        voter: entry.0.1,
        vote: VoteOption::of_code(entry.1.0),
        voting_power: entry.1.1,
        timestamp: entry.1.2,
    }
}

/// The votes that the entries of the map stand for.
pub open spec fn ballots(entries: Seq<((u64, Seq<u8>), (u8, u64, u64))>) -> Seq<VoteView> {
    entries.map_values(|entry: ((u64, Seq<u8>), (u8, u64, u64))| ballot_of(entry))
}

/// Every voter is an identity of at most [`MAX_IDENTITY_BYTES`] bytes.
pub open spec fn voters_bounded(votes: Seq<VoteView>) -> bool {
    forall|i: int| 0 <= i < votes.len() ==> (#[trigger] votes[i]).voter.len() <= MAX_IDENTITY_BYTES
}

/// A voter has a vote on a proposal exactly where an entry has their key.
pub proof fn lemma_voted_is_keyed(
    entries: Seq<((u64, Seq<u8>), (u8, u64, u64))>,
    id: u64,
    who: Seq<u8>,
)
    ensures
        has_voted(ballots(entries), id, who) <==> has_key(entries, (id, who)),
{
    if has_voted(ballots(entries), id, who) {
        let i = choose|i: int|
            0 <= i < ballots(entries).len() && (#[trigger] ballots(entries)[i]).proposal_id == id
                && ballots(entries)[i].voter == who;
        assert(entries[i].0 == (id, who));
    }
    if has_key(entries, (id, who)) {
        let i = choose|i: int| 0 <= i < entries.len() && (#[trigger] entries[i]).0 == (id, who);
        assert(ballots(entries)[i].proposal_id == id && ballots(entries)[i].voter == who);
    }
}

/// The place of a key among the entries is the place of its vote among the votes.
pub proof fn lemma_rank_of_ballot(
    entries: Seq<((u64, Seq<u8>), (u8, u64, u64))>,
    entry: ((u64, Seq<u8>), (u8, u64, u64)),
)
    ensures
        vote_rank(ballots(entries), ballot_of(entry)) == key_rank(entries, entry.0),
    decreases entries.len(),
{
    if entries.len() > 0 {
        assert(ballots(entries).drop_last() =~= ballots(entries.drop_last()));
        lemma_rank_of_ballot(entries.drop_last(), entry);
    }
}

/// The votes cast, by proposal and voter.
pub struct VoteBook {
    tree: VoteTree,
}

impl View for VoteBook {
    type V = Seq<VoteView>;

    closed spec fn view(&self) -> Seq<VoteView> {
        ballots(vote_entries(self.tree))
    }
}

impl VoteBook {
    /// The book's invariant: one vote per proposal and voter, in the order
    /// of proposal and voter, each by a voter of no more bytes than an
    /// identity can have.
    pub open spec fn wf(&self) -> bool {
        &&& distinct_ballots(self@)
        &&& ascending_ballots(self@)
        &&& voters_bounded(self@)
    }

    /// A book without votes.
    pub fn new() -> (book: VoteBook)
        ensures
            book.wf(),
            book@ == Seq::<VoteView>::empty(),
    {
        let book = VoteBook { tree: tree_new() };
        assert(book@ =~= Seq::<VoteView>::empty());
        book
    }

    /// Whether `who` has a vote on proposal `id`.
    pub fn has_voted(&self, id: u64, who: &Identity) -> (voted: bool)
        ensures
            voted == has_voted(self@, id, who@),
    {
        let found = tree_get(&self.tree, id, who.as_bytes());
        proof {
            let entries = vote_entries(self.tree);
            lemma_voted_is_keyed(entries, id, who@);
            if found is Some {
                let i = choose|i: int|
                    0 <= i < entries.len() && #[trigger] entries[i] == ((id, who@), found->0);
                assert(entries[i].0 == (id, who@));
            }
        }
        found.is_some()
    }

    /// Records `vote`, behind the votes that come before it and ahead of the others.
    pub fn record(&mut self, vote: Vote)
        requires
            old(self).wf(),
            !has_voted(old(self)@, vote.proposal_id, vote@.voter),
        ensures
            final(self).wf(),
            final(self)@ == with_vote(old(self)@, vote@),
    {
        let ghost before = self@;
        let ghost entries = vote_entries(self.tree);
        let ghost cast = vote@;
        let value = (vote.vote.code(), vote.voting_power, vote.timestamp);
        proof {
            lemma_voted_is_keyed(entries, cast.proposal_id, cast.voter);
        }
        let _ = tree_insert(&mut self.tree, vote.proposal_id, vote.voter.as_bytes(), value);
        proof {
            let entry = ((cast.proposal_id, cast.voter), value);
            assert(ballot_of(entry) == cast);
            lemma_rank_of_ballot(entries, entry);
            lemma_vote_rank_bounds(before, cast);
            assert(self@ =~= with_vote(before, cast));
            lemma_with_vote_distinct(before, cast);
            lemma_with_vote_ascending(before, cast);
            assert forall|i: int| 0 <= i < self@.len() implies (#[trigger] self@[i]).voter.len()
                <= MAX_IDENTITY_BYTES by {
                if self@[i] != cast {
                    assert(before.contains(self@[i]));
                }
            }
        }
    }

    /// The vote that an entry of the map stands for.
    fn vote_from(entry: &((u64, Vec<u8>), (u8, u64, u64))) -> (vote: Option<Vote>)
        ensures
            match vote {
                Some(v) => v@ == ballot_of(((entry.0.0, entry.0.1@), entry.1)),
                None => entry.0.1@.len() > MAX_IDENTITY_BYTES,
            },
    {
        match Identity::new(entry.0.1.clone()) {
            Some(voter) => Some(
                Vote {
                    proposal_id: entry.0.0,
                    voter,
                    vote: VoteOption::from_code(entry.1.0),
                    voting_power: entry.1.1,
                    timestamp: entry.1.2,
                },
            ),
            None => None,
        }
    }

    /// The votes of `who`, by proposal.
    pub fn by_voter(&self, who: &Identity) -> (list: Vec<Vote>)
        requires
            self.wf(),
        ensures
            vote_views(list@) == self@.filter(|v: VoteView| v.voter == who@),
    {
        let ghost wanted = |v: VoteView| v.voter == who@;
        let entries = tree_entries(&self.tree);
        let mut list: Vec<Vote> = Vec::new();
        let mut i: usize = 0;
        while i < entries.len()
            invariant
                i <= entries.len(),
                self.wf(),
                self@ == ballots(plain_entries(entries@)),
                wanted == |v: VoteView| v.voter == who@,
                vote_views(list@) == self@.take(i as int).filter(wanted),
            decreases entries.len() - i,
        {
            let ghost held = vote_views(list@);
            proof {
                assert(self@.take(i + 1).drop_last() =~= self@.take(i as int));
                assert(self@.take(i + 1).last() == self@[i as int]);
                reveal(Seq::filter);
            }
            match Self::vote_from(&entries[i]) {
                Some(vote) => {
                    if vote.voter.same_as(who) {
                        list.push(vote);
                        assert(vote_views(list@) =~= held.push(self@[i as int]));
                    }
                },
                None => {
                    assert(self@[i as int].voter.len() <= MAX_IDENTITY_BYTES);
                },
            }
            i += 1;
        }
        assert(self@.take(self@.len() as int) =~= self@);
        list
    }

    /// The votes on proposal `id`, by voter.
    pub fn for_proposal(&self, id: u64) -> (list: Vec<Vote>)
        requires
            self.wf(),
        ensures
            vote_views(list@) == self@.filter(|v: VoteView| v.proposal_id == id),
    {
        let ghost wanted = |v: VoteView| v.proposal_id == id;
        let entries = tree_entries(&self.tree);
        let mut list: Vec<Vote> = Vec::new();
        let mut i: usize = 0;
        while i < entries.len()
            invariant
                i <= entries.len(),
                self.wf(),
                self@ == ballots(plain_entries(entries@)),
                wanted == |v: VoteView| v.proposal_id == id,
                vote_views(list@) == self@.take(i as int).filter(wanted),
            decreases entries.len() - i,
        {
            let ghost held = vote_views(list@);
            proof {
                assert(self@.take(i + 1).drop_last() =~= self@.take(i as int));
                assert(self@.take(i + 1).last() == self@[i as int]);
                reveal(Seq::filter);
            }
            if entries[i].0.0 == id {
                match Self::vote_from(&entries[i]) {
                    Some(vote) => {
                        list.push(vote);
                        assert(vote_views(list@) =~= held.push(self@[i as int]));
                    },
                    None => {
                        assert(self@[i as int].voter.len() <= MAX_IDENTITY_BYTES);
                    },
                }
            }
            i += 1;
        }
        assert(self@.take(self@.len() as int) =~= self@);
        list
    }
}

} // verus!

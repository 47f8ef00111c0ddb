//! The proposal store: proposals kept in the order of their identifiers,
//! which the store alone hands out.

use vstd::prelude::*;
use crate::types::{proposal_views, Identity, Proposal, ProposalStatus, ProposalView};

verus! {

/// The value of a [`ProposalStore`].
pub struct StoreView {
    /// The identifier handed out last; zero before the first.
    pub last_id: u64,
    /// The proposals held, by ascending identifier.
    pub items: Seq<ProposalView>,
}

/// Identifiers rise strictly along the sequence, so none occurs twice.
pub open spec fn ascending(items: Seq<ProposalView>) -> bool {
    forall|i: int, j: int| 0 <= i < j < items.len() ==> (#[trigger] items[i]).id < (#[trigger] items[j]).id
}

/// Every proposal held carries an identifier that was handed out.
pub open spec fn allocated(items: Seq<ProposalView>, last_id: u64) -> bool {
    forall|i: int| 0 <= i < items.len() ==> 1 <= (#[trigger] items[i]).id <= last_id
}

/// Whether a proposal is held under `id`.
pub open spec fn has_id(items: Seq<ProposalView>, id: u64) -> bool {
    exists|i: int| 0 <= i < items.len() && (#[trigger] items[i]).id == id
}

/// Where the proposal held under `id` stands.
pub open spec fn slot_of(items: Seq<ProposalView>, id: u64) -> int {
    choose|i: int| 0 <= i < items.len() && (#[trigger] items[i]).id == id
}

/// The proposal held under `id`, if there is one.
pub open spec fn lookup(items: Seq<ProposalView>, id: u64) -> Option<ProposalView> {
    if has_id(items, id) {
        Some(items[slot_of(items, id)])
    } else {
        None
    }
}

/// How many proposals carry an identifier below `id`.
pub open spec fn rank(items: Seq<ProposalView>, id: u64) -> int
    decreases items.len(),
{
    if items.len() == 0 {
        0
    } else {
        rank(items.drop_last(), id) + if items.last().id < id {
            1int
        } else {
            0int
        }
    }
}

/// The proposals after `proposal` has been put: it takes the place of the
/// one held under its identifier, or goes where its identifier belongs.
pub open spec fn with_proposal(items: Seq<ProposalView>, proposal: ProposalView) -> Seq<
    ProposalView,
> {
    let at = rank(items, proposal.id);
    if has_id(items, proposal.id) {
        items.update(at, proposal)
    } else {
        items.insert(at, proposal)
    }
}

/// The value of an optional proposal.
pub open spec fn proposal_option_view(found: Option<Proposal>) -> Option<ProposalView> {
    match found {
        Some(p) => Some(p@),
        None => None,
    }
}

/// In an ascending sequence, the rank of an identifier is the point that
/// parts the smaller identifiers from the others.
pub proof fn lemma_rank_at(items: Seq<ProposalView>, id: u64, at: int)
    requires
        0 <= at <= items.len(),
        forall|i: int| 0 <= i < at ==> (#[trigger] items[i]).id < id,
        forall|i: int| at <= i < items.len() ==> (#[trigger] items[i]).id >= id,
    ensures
        rank(items, id) == at,
    decreases items.len(),
{
    if items.len() > 0 {
        let rest = items.drop_last();
        assert(items.last() == items[items.len() - 1]);
        assert forall|i: int| 0 <= i < rest.len() implies #[trigger] rest[i] == items[i] by {}
        if at == items.len() {
            lemma_rank_at(rest, id, at - 1);
        } else {
            lemma_rank_at(rest, id, at);
        }
    }
}

/// In an ascending sequence, an identifier is held at one place only.
pub proof fn lemma_slot(items: Seq<ProposalView>, at: int)
    requires
        ascending(items),
        0 <= at < items.len(),
    ensures
        has_id(items, items[at].id),
        slot_of(items, items[at].id) == at,
        lookup(items, items[at].id) == Some(items[at]),
        rank(items, items[at].id) == at,
{
    let id = items[at].id;
    let chosen = slot_of(items, id);
    assert(items[chosen].id == id);
    if chosen < at {
        assert(items[chosen].id < items[at].id);
    }
    if at < chosen {
        assert(items[at].id < items[chosen].id);
    }
    assert forall|i: int| 0 <= i < at implies (#[trigger] items[i]).id < id by {}
    assert forall|i: int| at <= i < items.len() implies (#[trigger] items[i]).id >= id by {
        if at < i {
            assert(items[at].id < items[i].id);
        }
    }
    lemma_rank_at(items, id, at);
}

/// What putting a proposal does to an ascending sequence: the sequence stays
/// ascending, the proposal is found under its identifier, and every other
/// identifier finds what it found before.
pub proof fn lemma_with_proposal(items: Seq<ProposalView>, proposal: ProposalView)
    requires
        ascending(items),
    ensures
        ascending(with_proposal(items, proposal)),
        forall|id: u64| #[trigger]
            lookup(with_proposal(items, proposal), id) == if id == proposal.id {
                Some(proposal)
            } else {
                lookup(items, id)
            },
        has_id(items, proposal.id) ==> with_proposal(items, proposal) == items.update(
            slot_of(items, proposal.id),
            proposal,
        ),
        (forall|i: int| 0 <= i < items.len() ==> (#[trigger] items[i]).id < proposal.id)
            ==> with_proposal(items, proposal) == items.push(proposal),
{
    let after = with_proposal(items, proposal);
    let at = rank(items, proposal.id);
    if has_id(items, proposal.id) {
        let slot = slot_of(items, proposal.id);
        lemma_slot(items, slot);
        assert(at == slot);
        assert(after == items.update(at, proposal));
        assert(ascending(after)) by {
            assert forall|i: int, j: int| 0 <= i < j < after.len() implies (#[trigger] after[i]).id
                < (#[trigger] after[j]).id by {
                assert(after[i].id == items[i].id);
                assert(after[j].id == items[j].id);
            }
        }
        assert forall|id: u64| #[trigger]
            lookup(after, id) == if id == proposal.id {
                Some(proposal)
            } else {
                lookup(items, id)
            } by {
            if id == proposal.id {
                lemma_slot(after, at);
            } else if has_id(items, id) {
                let k = slot_of(items, id);
                assert(after[k] == items[k]);
                lemma_slot(items, k);
                lemma_slot(after, k);
            } else {
                if has_id(after, id) {
                    let k = slot_of(after, id);
                    assert(items[k].id == id);
                }
            }
        }
        if forall|i: int| 0 <= i < items.len() ==> (#[trigger] items[i]).id < proposal.id {
            assert(items[slot].id < proposal.id);
        }
    } else {
        lemma_rank_bounds(items, proposal.id);
        assert(after == items.insert(at, proposal));
        assert forall|i: int| 0 <= i < at implies (#[trigger] items[i]).id < proposal.id by {
            lemma_rank_parts(items, proposal.id, i);
        }
        assert forall|i: int| at <= i < items.len() implies (#[trigger] items[i]).id
            > proposal.id by {
            lemma_rank_parts(items, proposal.id, i);
        }
        assert(ascending(after)) by {
            assert forall|i: int, j: int| 0 <= i < j < after.len() implies (#[trigger] after[i]).id
                < (#[trigger] after[j]).id by {
                if j < at {
                    assert(after[i] == items[i] && after[j] == items[j]);
                } else if j == at {
                    assert(after[i] == items[i]);
                } else if i < at {
                    assert(after[i] == items[i] && after[j] == items[j - 1]);
                    if i < j - 1 {
                        assert(items[i].id < items[j - 1].id);
                    }
                } else if i == at {
                    assert(after[j] == items[j - 1]);
                } else {
                    assert(after[i] == items[i - 1] && after[j] == items[j - 1]);
                }
            }
        }
        assert forall|id: u64| #[trigger]
            lookup(after, id) == if id == proposal.id {
                Some(proposal)
            } else {
                lookup(items, id)
            } by {
            if id == proposal.id {
                assert(after[at] == proposal);
                lemma_slot(after, at);
            } else if has_id(items, id) {
                let k = slot_of(items, id);
                let moved = if k < at {
                    k
                } else {
                    k + 1
                };
                assert(after[moved] == items[k]);
                lemma_slot(items, k);
                lemma_slot(after, moved);
            } else {
                if has_id(after, id) {
                    let k = slot_of(after, id);
                    if k < at {
                        assert(items[k].id == id);
                    } else {
                        assert(after[k] == items[k - 1]);
                        assert(items[k - 1].id == id);
                    }
                }
            }
        }
        if forall|i: int| 0 <= i < items.len() ==> (#[trigger] items[i]).id < proposal.id {
            if at < items.len() {
                assert(items[at].id > proposal.id);
            }
            assert(items.insert(at, proposal) =~= items.push(proposal));
        }
    }
}

/// A rank lies within the sequence.
pub proof fn lemma_rank_bounds(items: Seq<ProposalView>, id: u64)
    ensures
        0 <= rank(items, id) <= items.len(),
    decreases items.len(),
{
    if items.len() > 0 {
        lemma_rank_bounds(items.drop_last(), id);
    }
}

/// In an ascending sequence that does not hold `id`, the rank of `id` parts
/// the smaller identifiers from the greater.
pub proof fn lemma_rank_parts(items: Seq<ProposalView>, id: u64, i: int)
    requires
        ascending(items),
        !has_id(items, id),
        0 <= i < items.len(),
    ensures
        i < rank(items, id) <==> items[i].id < id,
        i >= rank(items, id) <==> items[i].id > id,
    decreases items.len(),
{
    let rest = items.drop_last();
    let last = items.len() - 1;
    assert(items.last() == items[last]);
    assert(items[i].id != id);
    lemma_rank_bounds(rest, id);
    if i < last {
        assert(ascending(rest)) by {
            assert forall|a: int, b: int| 0 <= a < b < rest.len() implies (#[trigger] rest[a]).id
                < (#[trigger] rest[b]).id by {
                assert(rest[a] == items[a] && rest[b] == items[b]);
            }
        }
        assert(!has_id(rest, id)) by {
            if has_id(rest, id) {
                let k = slot_of(rest, id);
                assert(items[k].id == id);
            }
        }
        assert(rest[i] == items[i]);
        lemma_rank_parts(rest, id, i);
        assert(items[i].id < items[last].id);
    } else if items[last].id < id {
        // every identifier is below `id`
        assert forall|k: int| 0 <= k < rest.len() implies (#[trigger] rest[k]).id < id by {
            assert(rest[k] == items[k]);
            assert(items[k].id < items[last].id);
        }
        lemma_rank_at(rest, id, rest.len() as int);
    }
}

/// The store of proposals.
///
/// It hands out identifiers, each greater than the one before, and keeps
/// proposals by ascending identifier. Nothing is ever removed.
pub struct ProposalStore {
    last_id: u64,
    entries: Vec<Proposal>,
}

impl View for ProposalStore {
    type V = StoreView;

    closed spec fn view(&self) -> StoreView {
        StoreView { last_id: self.last_id, items: proposal_views(self.entries@) }
    }
}

impl ProposalStore {
    /// The store's invariant: ascending identifiers, all of them handed out by the store.
    pub open spec fn wf(&self) -> bool {
        &&& ascending(self@.items)
        &&& allocated(self@.items, self@.last_id)
    }

    /// An empty store that has handed out no identifier.
    pub fn new() -> (store: ProposalStore)
        ensures
            store.wf(),
            store@.last_id == 0,
            store@.items == Seq::<ProposalView>::empty(),
    {
        let store = ProposalStore { last_id: 0, entries: Vec::new() };
        assert(store@.items =~= Seq::<ProposalView>::empty());
        store
    }

    /// The identifier handed out last; zero before the first.
    pub fn last_id(&self) -> (id: u64)
        ensures
            id == self@.last_id,
    {
        self.last_id
    }

    /// How many proposals are held.
    pub fn len(&self) -> (n: usize)
        ensures
            n == self@.items.len(),
    {
        self.entries.len()
    }

    /// Hands out the next identifier: one more than the last, never one
    /// that was handed out before.
    pub fn next_id(&mut self) -> (id: u64)
        requires
            old(self).wf(),
            old(self)@.last_id < u64::MAX,
        ensures
            final(self).wf(),
            id == old(self)@.last_id + 1,
            final(self)@.last_id == id,
            final(self)@.items == old(self)@.items,
    {
        self.last_id = self.last_id + 1;
        self.last_id
    }

    /// The place that parts the identifiers below `id` from the others.
    fn position(&self, id: u64) -> (at: usize)
        requires
            self.wf(),
        ensures
            at <= self@.items.len(),
            forall|i: int| 0 <= i < at ==> (#[trigger] self@.items[i]).id < id,
            forall|i: int| at <= i < self@.items.len() ==> (#[trigger] self@.items[i]).id >= id,
    {
        let mut low: usize = 0;
        let mut high: usize = self.entries.len();
        while low < high
            invariant
                self.wf(),
                self@.items.len() == self.entries.len(),
                low <= high <= self.entries.len(),
                forall|i: int| 0 <= i < low ==> (#[trigger] self@.items[i]).id < id,
                forall|i: int| high <= i < self@.items.len() ==> (#[trigger] self@.items[i]).id >= id,
            decreases high - low,
        {
            let mid = low + (high - low) / 2;
            assert(self@.items[mid as int].id == self.entries[mid as int].id);
            if self.entries[mid].id < id {
                assert forall|i: int| 0 <= i < mid + 1 implies (#[trigger] self@.items[i]).id < id by {
                    if i < mid {
                        assert(self@.items[i].id < self@.items[mid as int].id);
                    }
                }
                low = mid + 1;
            } else {
                assert forall|i: int| mid <= i < self@.items.len() implies (
                #[trigger] self@.items[i]).id >= id by {
                    if mid < i {
                        assert(self@.items[mid as int].id < self@.items[i].id);
                    }
                }
                high = mid;
            }
        }
        low
    }

    /// The proposal held under `id`, if there is one.
    pub fn get(&self, id: u64) -> (found: Option<Proposal>)
        requires
            self.wf(),
        ensures
            proposal_option_view(found) == lookup(self@.items, id),
    {
        let at = self.position(id);
        if at < self.entries.len() && self.entries[at].id == id {
            proof {
                lemma_slot(self@.items, at as int);
            }
            Some(self.entries[at].clone())
        } else {
            proof {
                if has_id(self@.items, id) {
                    let k = slot_of(self@.items, id);
                    if k < at {
                        assert(self@.items[k].id < id);
                    } else if k > at {
                        assert(self@.items[at as int].id < self@.items[k].id);
                    }
                }
            }
            None
        }
    }

    /// Keeps `proposal` under `id`, in place of what was held under `id` before.
    ///
    /// Every other identifier finds what it found before.
    pub fn put(&mut self, id: u64, proposal: Proposal)
        requires
            old(self).wf(),
            proposal.id == id,
            1 <= id <= old(self)@.last_id,
        ensures
            final(self).wf(),
            final(self)@.last_id == old(self)@.last_id,
            final(self)@.items == with_proposal(old(self)@.items, proposal@),
            forall|other: u64| #[trigger]
                lookup(final(self)@.items, other) == if other == id {
                    Some(proposal@)
                } else {
                    lookup(old(self)@.items, other)
                },
    {
        let ghost before = self@.items;
        let ghost put = proposal@;
        let at = self.position(id);
        proof {
            lemma_rank_at(before, id, at as int);
            lemma_with_proposal(before, put);
        }
        if at < self.entries.len() && self.entries[at].id == id {
            proof {
                lemma_slot(before, at as int);
            }
            self.entries[at] = proposal;
            assert(self@.items =~= before.update(at as int, put));
        } else {
            proof {
                if has_id(before, id) {
                    let k = slot_of(before, id);
                    if k < at {
                        assert(before[k].id < id);
                    } else if k > at {
                        assert(before[at as int].id < before[k].id);
                    }
                }
            }
            self.entries.insert(at, proposal);
            assert(self@.items =~= before.insert(at as int, put));
        }
        proof {
            let after = self@.items;
            assert forall|i: int| 0 <= i < after.len() implies 1 <= (#[trigger] after[i]).id
                <= self@.last_id by {
                if after[i].id != id {
                    assert(lookup(after, after[i].id) == lookup(before, after[i].id));
                    lemma_slot(after, i);
                    let k = slot_of(before, after[i].id);
                    assert(1 <= before[k].id <= self@.last_id);
                }
            }
        }
    }

    /// All proposals, by ascending identifier.
    pub fn all(&self) -> (list: Vec<Proposal>)
        ensures
            proposal_views(list@) == self@.items,
    {
        let mut list: Vec<Proposal> = Vec::new();
        let mut i: usize = 0;
        while i < self.entries.len()
            invariant
                i <= self.entries.len(),
                self@.items.len() == self.entries.len(),
                proposal_views(list@) == self@.items.take(i as int),
            decreases self.entries.len() - i,
        {
            let ghost held = proposal_views(list@);
            list.push(self.entries[i].clone());
            assert(proposal_views(list@) =~= held.push(self@.items[i as int]));
            assert(self@.items.take(i + 1) =~= held.push(self@.items[i as int]));
            i += 1;
        }
        assert(self@.items.take(self@.items.len() as int) =~= self@.items);
        list
    }

    /// The proposals whose status is `status`, by ascending identifier.
    pub fn with_status(&self, status: ProposalStatus) -> (list: Vec<Proposal>)
        ensures
            proposal_views(list@) == self@.items.filter(|p: ProposalView| p.status == status),
    {
        let ghost wanted = |p: ProposalView| p.status == status;
        let mut list: Vec<Proposal> = Vec::new();
        let mut i: usize = 0;
        while i < self.entries.len()
            invariant
                i <= self.entries.len(),
                self@.items.len() == self.entries.len(),
                wanted == |p: ProposalView| p.status == status,
                proposal_views(list@) == self@.items.take(i as int).filter(wanted),
            decreases self.entries.len() - i,
        {
            let ghost held = proposal_views(list@);
            proof {
                assert(self@.items.take(i + 1).drop_last() =~= self@.items.take(i as int));
                assert(self@.items.take(i + 1).last() == self@.items[i as int]);
                reveal(Seq::filter);
            }
            if self.entries[i].status == status {
                list.push(self.entries[i].clone());
                assert(proposal_views(list@) =~= held.push(self@.items[i as int]));
            }
            i += 1;
        }
        assert(self@.items.take(self@.items.len() as int) =~= self@.items);
        list
    }

    /// The proposals submitted by `who`, by ascending identifier.
    pub fn by_proposer(&self, who: &Identity) -> (list: Vec<Proposal>)
        ensures
            proposal_views(list@) == self@.items.filter(|p: ProposalView| p.proposer == who@),
    {
        let ghost wanted = |p: ProposalView| p.proposer == who@;
        let mut list: Vec<Proposal> = Vec::new();
        let mut i: usize = 0;
        while i < self.entries.len()
            invariant
                i <= self.entries.len(),
                self@.items.len() == self.entries.len(),
                wanted == |p: ProposalView| p.proposer == who@,
                proposal_views(list@) == self@.items.take(i as int).filter(wanted),
            decreases self.entries.len() - i,
        {
            let ghost held = proposal_views(list@);
            proof {
                assert(self@.items.take(i + 1).drop_last() =~= self@.items.take(i as int));
                assert(self@.items.take(i + 1).last() == self@.items[i as int]);
                reveal(Seq::filter);
            }
            if self.entries[i].proposer.same_as(who) {
                list.push(self.entries[i].clone());
                assert(proposal_views(list@) =~= held.push(self@.items[i as int]));
            }
            i += 1;
        }
        assert(self@.items.take(self@.items.len() as int) =~= self@.items);
        list
    }
}

} // verus!

//! The map that holds the votes: a B-tree map of `ic_stable_structures`,
//! written to a memory of its own.
//!
//! A vote is kept as plain numbers under a key of proposal and voter. The
//! map is not verified. What this crate takes for granted of it is stated
//! in the contracts of the four functions below, and nowhere else.

use vstd::prelude::*;
use ic_principal::Principal;
use ic_stable_structures::{StableBTreeMap, VectorMemory};
use crate::types::{identity_before, MAX_IDENTITY_BYTES};

verus! {

/// The order of keys, which is the order that `Ord` gives a pair of a
/// number and a principal: by the number, and under one number by the
/// principal, a shorter principal before a longer one and principals of one
/// length by their bytes.
pub open spec fn key_before(a: (u64, Seq<u8>), b: (u64, Seq<u8>)) -> bool {
    a.0 < b.0 || (a.0 == b.0 && identity_before(a.1, b.1))
}

/// How many of the entries have a key that comes before `key`.
pub open spec fn key_rank(entries: Seq<((u64, Seq<u8>), (u8, u64, u64))>, key: (u64, Seq<u8>)) -> int
    decreases entries.len(),
{
    if entries.len() == 0 {
        0
    } else {
        key_rank(entries.drop_last(), key) + if key_before(entries.last().0, key) {
            1int
        } else {
            0int
        }
    }
}

/// Whether one of the entries has the key `key`.
pub open spec fn has_key(entries: Seq<((u64, Seq<u8>), (u8, u64, u64))>, key: (u64, Seq<u8>)) -> bool {
    exists|i: int| 0 <= i < entries.len() && (#[trigger] entries[i]).0 == key
}

/// Whether `entry` is one of the entries.
pub open spec fn has_entry(
    entries: Seq<((u64, Seq<u8>), (u8, u64, u64))>,
    entry: ((u64, Seq<u8>), (u8, u64, u64)),
) -> bool {
    exists|i: int| 0 <= i < entries.len() && #[trigger] entries[i] == entry
}

/// The entries of a list as plain values.
pub open spec fn plain_entries(list: Seq<((u64, Vec<u8>), (u8, u64, u64))>) -> Seq<
    ((u64, Seq<u8>), (u8, u64, u64)),
> {
    list.map_values(|entry: ((u64, Vec<u8>), (u8, u64, u64))| ((entry.0.0, entry.0.1@), entry.1))
}

/// A B-tree map from proposal and voter to side, power and time.
///
/// The map is `ic_stable_structures::BTreeMap`, with a key of a number and
/// a principal and a value of three numbers, over a `VectorMemory`.
#[verifier::external_body]
pub struct VoteTree {
    inner: StableBTreeMap<(u64, Principal), (u8, u64, u64), VectorMemory>,
}

/// The entries of the map in the order in which it walks them, which is
/// the ascending order of its keys; the principal of each key by its bytes.
pub uninterp spec fn vote_entries(tree: VoteTree) -> Seq<((u64, Seq<u8>), (u8, u64, u64))>;

/// `BTreeMap::new` on a fresh `VectorMemory`: a map without entries.
#[verifier::external_body]
pub(crate) fn tree_new() -> (tree: VoteTree)
    ensures
        vote_entries(tree) == Seq::<((u64, Seq<u8>), (u8, u64, u64))>::empty(),
{
    VoteTree { inner: StableBTreeMap::new(VectorMemory::default()) }
}

/// `BTreeMap::get` under the key of `proposal_id` and the principal with
/// the bytes `voter`: the value of the entry with that key, and `None`
/// where no entry has it.
#[verifier::external_body]
pub(crate) fn tree_get(tree: &VoteTree, proposal_id: u64, voter: &Vec<u8>) -> (found: Option<
    (u8, u64, u64),
>)
    requires
        voter@.len() <= MAX_IDENTITY_BYTES,
    ensures
        match found {
            Some(value) => has_entry(vote_entries(*tree), ((proposal_id, voter@), value)),
            None => !has_key(vote_entries(*tree), (proposal_id, voter@)),
        },
{
    tree.inner.get(&(proposal_id, Principal::from_slice(voter)))
}

/// `BTreeMap::insert` of `value` under the key of `proposal_id` and the
/// principal with the bytes `voter`, where no entry has that key: the entry
/// is added at its place in the order of keys, behind the entries whose key
/// comes before its own, and `None` is returned, there being no value that
/// it replaces.
#[verifier::external_body]
pub(crate) fn tree_insert(
    tree: &mut VoteTree,
    proposal_id: u64,
    voter: &Vec<u8>,
    value: (u8, u64, u64),
) -> (previous: Option<(u8, u64, u64)>)
    requires
        voter@.len() <= MAX_IDENTITY_BYTES,
        !has_key(vote_entries(*old(tree)), (proposal_id, voter@)),
    ensures
        previous is None,
        vote_entries(*final(tree)) == vote_entries(*old(tree)).insert(
            key_rank(vote_entries(*old(tree)), (proposal_id, voter@)),
            ((proposal_id, voter@), value),
        ),
{
    tree.inner.insert((proposal_id, Principal::from_slice(voter)), value)
}

/// `BTreeMap::iter`, walked to its end: all entries in the order of their
/// keys, the principal of each key given by its bytes.
#[verifier::external_body]
pub(crate) fn tree_entries(tree: &VoteTree) -> (list: Vec<((u64, Vec<u8>), (u8, u64, u64))>)
    ensures
        plain_entries(list@) == vote_entries(*tree),
{
    tree.inner.iter().map(|(key, value)| ((key.0, key.1.as_slice().to_vec()), value)).collect()
}

} // verus!

//! The voting-power ledger: one record per participant, looked up by
//! identity and summed on demand.

use vstd::prelude::*;
use crate::types::{power_views, Identity, VotingPower, VotingPowerView};

verus! {

/// No two records are held for the same participant.
pub open spec fn distinct_holders(entries: Seq<VotingPowerView>) -> bool {
    forall|i: int, j: int|
        0 <= i < j < entries.len() ==> (#[trigger] entries[i]).holder != (#[trigger] entries[j]).holder
}

/// The power the ledger holds for `who`: that of the record kept for `who`,
/// and zero where there is none.
pub open spec fn power_of(entries: Seq<VotingPowerView>, who: Seq<u8>) -> nat
    decreases entries.len(),
{
    if entries.len() == 0 {
        0
    } else if entries.last().holder == who {
        entries.last().power as nat
    } else {
        power_of(entries.drop_last(), who)
    }
}

/// The sum of the power of all records.
pub open spec fn total_power(entries: Seq<VotingPowerView>) -> nat
    decreases entries.len(),
{
    if entries.len() == 0 {
        0
    } else {
        total_power(entries.drop_last()) + entries.last().power as nat
    }
}

/// Every record names each campaign once.
pub open spec fn records_in_order(entries: Seq<VotingPowerView>) -> bool {
    forall|i: int| 0 <= i < entries.len() ==> (#[trigger] entries[i]).wf()
}

/// Whether a record is held for `who`.
pub open spec fn holds(entries: Seq<VotingPowerView>, who: Seq<u8>) -> bool {
    exists|i: int| 0 <= i < entries.len() && (#[trigger] entries[i]).holder == who
}

/// The ledger after `record` has been written: it takes the place of the
/// record held for the same participant, or is added where there was none.
pub open spec fn with_record(
    entries: Seq<VotingPowerView>,
    record: VotingPowerView,
) -> Seq<VotingPowerView> {
    if holds(entries, record.holder) {
        let at = choose|i: int|
            0 <= i < entries.len() && (#[trigger] entries[i]).holder == record.holder;
        entries.update(at, record)
    } else {
        entries.push(record)
    }
}

/// Where records are distinct, the power of a participant is that of the
/// one record that names it.
pub proof fn lemma_power_at(entries: Seq<VotingPowerView>, at: int)
    requires
        distinct_holders(entries),
        0 <= at < entries.len(),
    ensures
        power_of(entries, entries[at].holder) == entries[at].power,
    decreases entries.len(),
{
    if at < entries.len() - 1 {
        let rest = entries.drop_last();
        assert(entries.last() == entries[entries.len() - 1]);
        assert(rest[at] == entries[at]);
        assert(distinct_holders(rest)) by {
            assert forall|i: int, j: int| 0 <= i < j < rest.len() implies (#[trigger] rest[i]).holder
                != (#[trigger] rest[j]).holder by {
                assert(rest[i] == entries[i] && rest[j] == entries[j]);
            }
        }
        lemma_power_at(rest, at);
    }
}

/// A participant without a record has no power.
pub proof fn lemma_power_absent(entries: Seq<VotingPowerView>, who: Seq<u8>)
    requires
        !holds(entries, who),
    ensures
        power_of(entries, who) == 0,
    decreases entries.len(),
{
    if entries.len() > 0 {
        let rest = entries.drop_last();
        assert(entries.last() == entries[entries.len() - 1]);
        assert(!holds(rest, who)) by {
            if holds(rest, who) {
                let i = choose|i: int| 0 <= i < rest.len() && (#[trigger] rest[i]).holder == who;
                assert(entries[i].holder == who);
            }
        }
        lemma_power_absent(rest, who);
    }
}

/// Replacing one record changes the total by the difference of the two.
pub proof fn lemma_total_update(entries: Seq<VotingPowerView>, at: int, record: VotingPowerView)
    requires
        0 <= at < entries.len(),
    ensures
        total_power(entries.update(at, record)) == total_power(entries) - entries[at].power
            + record.power,
    decreases entries.len(),
{
    let changed = entries.update(at, record);
    if at == entries.len() - 1 {
        assert(changed.drop_last() =~= entries.drop_last());
    } else {
        assert(changed.drop_last() =~= entries.drop_last().update(at, record));
        assert(changed.last() == entries.last());
        lemma_total_update(entries.drop_last(), at, record);
    }
}

/// The power of a participant is that of a record, or zero: 64 bits hold it.
pub proof fn lemma_power_fits(entries: Seq<VotingPowerView>, who: Seq<u8>)
    ensures
        power_of(entries, who) <= u64::MAX,
    decreases entries.len(),
{
    if entries.len() > 0 {
        lemma_power_fits(entries.drop_last(), who);
    }
}

/// The sum of the amounts in a list of pairs of campaign and amount.
pub open spec fn invested(investments: Seq<(u64, u64)>) -> nat
    decreases investments.len(),
{
    if investments.len() == 0 {
        0
    } else {
        invested(investments.drop_last()) + investments.last().1 as nat
    }
}

/// The voting power that holdings give: every unit invested counts once,
/// every token held counts a hundred.
pub open spec fn user_power(investments: Seq<(u64, u64)>, nft_holdings: Seq<u64>) -> nat {
    invested(investments) + 100 * nft_holdings.len()
}

/// The amounts up to any point sum to no more than all of them.
pub proof fn lemma_invested_prefix(investments: Seq<(u64, u64)>, upto: int)
    requires
        0 <= upto <= investments.len(),
    ensures
        invested(investments.take(upto)) <= invested(investments),
    decreases investments.len(),
{
    if upto < investments.len() {
        assert(investments.drop_last().take(upto) =~= investments.take(upto));
        lemma_invested_prefix(investments.drop_last(), upto);
    } else {
        assert(investments.take(upto) =~= investments);
    }
}

/// The voting power that holdings give, where 64 bits hold it.
pub fn checked_user_voting_power(investments: &Vec<(u64, u64)>, nft_holdings: &Vec<u64>) -> (power:
    Option<u64>)
    ensures
        match power {
            Some(p) => p == user_power(investments@, nft_holdings@),
            None => user_power(investments@, nft_holdings@) > u64::MAX,
        },
{
    let mut sum: u64 = 0;
    let mut i: usize = 0;
    while i < investments.len()
        invariant
            i <= investments.len(),
            sum == invested(investments@.take(i as int)),
        decreases investments.len() - i,
    {
        proof {
            assert(investments@.take(i + 1).drop_last() =~= investments@.take(i as int));
            lemma_invested_prefix(investments@, i + 1);
        }
        match sum.checked_add(investments[i].1) {
            Some(next) => {
                sum = next;
            },
            None => {
                return None;
            },
        }
        i += 1;
    }
    assert(investments@.take(investments@.len() as int) =~= investments@);
    let with_tokens: u128 = sum as u128 + 100 * (nft_holdings.len() as u128);
    if with_tokens <= u64::MAX as u128 {
        Some(with_tokens as u64)
    } else {
        None
    }
}

/// The voting power that holdings give.
pub fn calculate_user_voting_power(investments: &Vec<(u64, u64)>, nft_holdings: &Vec<u64>) -> (power:
    u64)
    requires
        user_power(investments@, nft_holdings@) <= u64::MAX,
    ensures
        power == user_power(investments@, nft_holdings@),
{
    match checked_user_voting_power(investments, nft_holdings) {
        Some(power) => power,
        None => 0,
    }
}

/// The ledger of voting power.
///
/// It holds at most one record per participant. A participant it holds no
/// record for has no power.
pub struct VotingPowerLedger {
    entries: Vec<VotingPower>,
}

impl View for VotingPowerLedger {
    type V = Seq<VotingPowerView>;

    closed spec fn view(&self) -> Seq<VotingPowerView> {
        power_views(self.entries@)
    }
}

impl VotingPowerLedger {
    /// The ledger's invariant: one record per participant, and in each
    /// record one amount per campaign.
    pub open spec fn wf(&self) -> bool {
        &&& distinct_holders(self@)
        &&& records_in_order(self@)
    }

    /// An empty ledger.
    pub fn new() -> (ledger: VotingPowerLedger)
        ensures
            ledger.wf(),
            ledger@ == Seq::<VotingPowerView>::empty(),
    {
        let ledger = VotingPowerLedger { entries: Vec::new() };
        assert(ledger@ =~= Seq::<VotingPowerView>::empty());
        ledger
    }

    /// Where the record of `who` is kept, if there is one.
    fn find(&self, who: &Identity) -> (at: Option<usize>)
        ensures
            match at {
                Some(i) => i < self@.len() && self@[i as int].holder == who@,
                None => !holds(self@, who@),
            },
    {
        let mut i: usize = 0;
        while i < self.entries.len()
            invariant
                i <= self.entries.len(),
                self@.len() == self.entries.len(),
                forall|k: int| 0 <= k < i ==> (#[trigger] self@[k]).holder != who@,
            decreases self.entries.len() - i,
        {
            if self.entries[i].holder.same_as(who) {
                return Some(i);
            }
            i += 1;
        }
        None
    }

    /// The voting power of `who`; zero for a participant the ledger does not know.
    pub fn get(&self, who: &Identity) -> (power: u64)
        requires
            self.wf(),
        ensures
            power == power_of(self@, who@),
    {
        match self.find(who) {
            Some(i) => {
                proof {
                    lemma_power_at(self@, i as int);
                }
                self.entries[i].power
            },
            None => {
                proof {
                    lemma_power_absent(self@, who@);
                }
                0
            },
        }
    }

    /// Writes `record`, whatever the ledger held for its holder before.
    ///
    /// Only the power of that holder changes, and the total moves by the
    /// difference.
    pub fn set(&mut self, record: VotingPower)
        requires
            old(self).wf(),
            record@.wf(),
        ensures
            final(self).wf(),
            final(self)@ == with_record(old(self)@, record@),
            forall|who: Seq<u8>|
                #[trigger] power_of(final(self)@, who) == if who == record@.holder {
                    record.power as nat
                } else {
                    power_of(old(self)@, who)
                },
            total_power(final(self)@) == total_power(old(self)@) - power_of(
                old(self)@,
                record@.holder,
            ) + record.power,
    {
        let ghost before = self@;
        let ghost written = record@;
        match self.find(&record.holder) {
            Some(i) => {
                self.entries[i] = record;
                proof {
                    let at = i as int;
                    let chosen = choose|k: int|
                        0 <= k < before.len() && (#[trigger] before[k]).holder == written.holder;
                    assert(before[at].holder == written.holder);
                    assert(chosen == at);
                    assert(self@ =~= before.update(at, written));
                    assert(distinct_holders(self@));
                    lemma_power_at(before, at);
                    lemma_total_update(before, at, written);
                    assert forall|who: Seq<u8>| #[trigger]
                        power_of(self@, who) == if who == written.holder {
                            written.power as nat
                        } else {
                            power_of(before, who)
                        } by {
                        if who == written.holder {
                            lemma_power_at(self@, at);
                        } else if holds(before, who) {
                            let k = choose|k: int|
                                0 <= k < before.len() && (#[trigger] before[k]).holder == who;
                            assert(self@[k] == before[k]);
                            lemma_power_at(before, k);
                            lemma_power_at(self@, k);
                        } else {
                            assert(!holds(self@, who)) by {
                                if holds(self@, who) {
                                    let k = choose|k: int|
                                        0 <= k < self@.len() && (#[trigger] self@[k]).holder == who;
                                    assert(before[k].holder == who);
                                }
                            }
                            lemma_power_absent(before, who);
                            lemma_power_absent(self@, who);
                        }
                    }
                }
            },
            None => {
                self.entries.push(record);
                proof {
                    assert(self@ =~= before.push(written));
                    assert(self@.drop_last() =~= before);
                    lemma_power_absent(before, written.holder);
                    assert(distinct_holders(self@)) by {
                        assert forall|i: int, j: int| 0 <= i < j < self@.len() implies (
                        #[trigger] self@[i]).holder != (#[trigger] self@[j]).holder by {
                            assert(self@[i] == before[i]);
                            if j < before.len() {
                                assert(self@[j] == before[j]);
                            }
                        }
                    }
                }
            },
        }
    }

    /// The sum of all power, where 64 bits hold it.
    pub fn checked_total(&self) -> (total: Option<u64>)
        ensures
            match total {
                Some(sum) => sum == total_power(self@),
                None => total_power(self@) > u64::MAX,
            },
    {
        let mut sum: u64 = 0;
        let mut i: usize = 0;
        while i < self.entries.len()
            invariant
                i <= self.entries.len(),
                self@.len() == self.entries.len(),
                sum == total_power(self@.take(i as int)),
            decreases self.entries.len() - i,
        {
            proof {
                assert(self@.take(i + 1).drop_last() =~= self@.take(i as int));
                lemma_total_prefix(self@, i + 1);
            }
            match sum.checked_add(self.entries[i].power) {
                Some(next) => {
                    sum = next;
                },
                None => {
                    return None;
                },
            }
            i += 1;
        }
        assert(self@.take(self@.len() as int) =~= self@);
        Some(sum)
    }

    /// The sum of all power, recomputed from the records at each call.
    pub fn total(&self) -> (total: u64)
        requires
            total_power(self@) <= u64::MAX,
        ensures
            total == total_power(self@),
    {
        match self.checked_total() {
            Some(sum) => sum,
            None => 0,
        }
    }
}

/// The records up to any point sum to no more than all of them.
pub proof fn lemma_total_prefix(entries: Seq<VotingPowerView>, upto: int)
    requires
        0 <= upto <= entries.len(),
    ensures
        total_power(entries.take(upto)) <= total_power(entries),
    decreases entries.len(),
{
    if upto < entries.len() {
        assert(entries.drop_last().take(upto) =~= entries.take(upto));
        lemma_total_prefix(entries.drop_last(), upto);
    } else {
        assert(entries.take(upto) =~= entries);
    }
}

} // verus!

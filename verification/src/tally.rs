//! Quorum and pass-threshold arithmetic.
//!
//! Thresholds are whole percentages. Both comparisons are carried out on
//! exact integers: nothing is divided, so nothing is rounded.

use vstd::prelude::*;

verus! {

/// What a tally amounts to under given thresholds.
#[derive(Clone, Copy, Debug, PartialEq, Eq, Structural)]
pub enum Verdict {
    /// Too little power has taken part for the tally to be decisive.
    Undecided,
    /// Quorum is met and the share in favour reaches the pass threshold.
    Passed,
    /// Quorum is met and the share in favour stays under the pass threshold.
    Rejected,
}

/// Quorum: the power that took a side, as a percentage of the frozen total,
/// reaches `quorum_threshold`.
pub open spec fn quorum_met(
    votes_for: nat,
    votes_against: nat,
    total_voting_power: nat,
    quorum_threshold: nat,
) -> bool {
    (votes_for + votes_against) * 100 >= total_voting_power * quorum_threshold
}

/// Majority: the power in favour, as a percentage of the power that took a
/// side, reaches `pass_threshold`.
pub open spec fn threshold_met(votes_for: nat, votes_against: nat, pass_threshold: nat) -> bool {
    votes_for * 100 >= (votes_for + votes_against) * pass_threshold
}

/// The verdict on a tally: a function of these five numbers and nothing else.
pub open spec fn verdict_of(
    votes_for: nat,
    votes_against: nat,
    total_voting_power: nat,
    quorum_threshold: nat,
    pass_threshold: nat,
) -> Verdict {
    if !quorum_met(votes_for, votes_against, total_voting_power, quorum_threshold) {
        Verdict::Undecided
    } else if threshold_met(votes_for, votes_against, pass_threshold) {
        Verdict::Passed
    } else {
        Verdict::Rejected
    }
}

/// Tests quorum for any five 64-bit inputs; the products are formed in 128
/// bits, where they cannot wrap.
pub fn has_quorum(
    votes_for: u64,
    votes_against: u64,
    total_voting_power: u64,
    quorum_threshold: u64,
) -> (met: bool)
    ensures
        met == quorum_met(
            votes_for as nat,
            votes_against as nat,
            total_voting_power as nat,
            quorum_threshold as nat,
        ),
{
    let cast: u128 = (votes_for as u128 + votes_against as u128) * 100;
    assert(total_voting_power as u128 * quorum_threshold as u128 <= u128::MAX) by (nonlinear_arith)
        requires
            total_voting_power <= u64::MAX,
            quorum_threshold <= u64::MAX,
    ;
    let needed: u128 = total_voting_power as u128 * quorum_threshold as u128;
    cast >= needed
}

/// Tests the pass threshold for any three 64-bit inputs.
///
/// A threshold above 100 can only be reached by an empty tally, which is
/// settled without forming the product; every other product fits 128 bits.
pub fn reaches_threshold(votes_for: u64, votes_against: u64, pass_threshold: u64) -> (met: bool)
    ensures
        met == threshold_met(votes_for as nat, votes_against as nat, pass_threshold as nat),
{
    let cast: u128 = votes_for as u128 + votes_against as u128;
    if pass_threshold > 100 {
        assert(cast > 0 ==> cast * pass_threshold > votes_for * 100) by (nonlinear_arith)
            requires
                pass_threshold > 100,
                cast >= votes_for,
        ;
        assert(cast == 0 ==> cast * pass_threshold == 0) by (nonlinear_arith);
        cast == 0
    } else {
        assert(cast * pass_threshold as u128 <= u128::MAX) by (nonlinear_arith)
            requires
                cast <= 2 * u64::MAX,
                pass_threshold <= 100,
        ;
        votes_for as u128 * 100 >= cast * pass_threshold as u128
    }
}

/// Evaluates a tally: `Undecided` until quorum is met, then `Passed` or
/// `Rejected` by the pass threshold.
pub fn evaluate_tally(
    votes_for: u64,
    votes_against: u64,
    total_voting_power: u64,
    quorum_threshold: u64,
    pass_threshold: u64,
) -> (verdict: Verdict)
    ensures
        verdict == verdict_of(
            votes_for as nat,
            votes_against as nat,
            total_voting_power as nat,
            quorum_threshold as nat,
            pass_threshold as nat,
        ),
{
    if !has_quorum(votes_for, votes_against, total_voting_power, quorum_threshold) {
        Verdict::Undecided
    } else if reaches_threshold(votes_for, votes_against, pass_threshold) {
        Verdict::Passed
    } else {
        Verdict::Rejected
    }
}

} // verus!

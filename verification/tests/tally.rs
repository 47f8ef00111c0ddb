use sns_dao::{evaluate_tally, has_quorum, reaches_threshold, Verdict};

#[test]
fn quorum_is_met_at_exactly_the_threshold() {
    // 200 of 1000 is exactly 20%.
    assert!(has_quorum(150, 50, 1000, 20));
    assert!(!has_quorum(150, 49, 1000, 20));
}

#[test]
fn quorum_counts_both_sides_but_no_abstention() {
    assert!(has_quorum(0, 200, 1000, 20));
    assert!(!has_quorum(0, 0, 1000, 20));
}

#[test]
fn quorum_of_zero_percent_is_always_met() {
    assert!(has_quorum(0, 0, 1000, 0));
    assert!(has_quorum(0, 0, 0, 0));
}

#[test]
fn quorum_on_an_empty_ledger_is_met() {
    assert!(has_quorum(0, 0, 0, 20));
}

#[test]
fn quorum_does_not_round() {
    // 1 of 6 is 16.67%: under 17, over 16.
    assert!(!has_quorum(1, 0, 6, 17));
    assert!(has_quorum(1, 0, 6, 16));
}

#[test]
fn quorum_products_do_not_wrap() {
    assert!(!has_quorum(u64::MAX, 0, u64::MAX, u64::MAX));
    assert!(has_quorum(u64::MAX, u64::MAX, u64::MAX, 200));
    assert!(!has_quorum(u64::MAX, u64::MAX, u64::MAX, 201));
}

#[test]
fn threshold_is_met_at_exactly_the_share() {
    // 51 of 100 is exactly 51%.
    assert!(reaches_threshold(51, 49, 51));
    assert!(!reaches_threshold(50, 50, 51));
}

#[test]
fn threshold_does_not_round() {
    // 2 of 3 is 66.67%.
    assert!(reaches_threshold(2, 1, 66));
    assert!(!reaches_threshold(2, 1, 67));
}

#[test]
fn threshold_above_a_hundred_is_met_by_the_empty_tally_only() {
    assert!(reaches_threshold(0, 0, 101));
    assert!(!reaches_threshold(1000, 0, 101));
    assert!(reaches_threshold(0, 0, u64::MAX));
    assert!(!reaches_threshold(u64::MAX, u64::MAX, u64::MAX));
}

#[test]
fn threshold_of_a_hundred_needs_every_vote() {
    assert!(reaches_threshold(u64::MAX, 0, 100));
    assert!(!reaches_threshold(u64::MAX, 1, 100));
}

#[test]
fn verdict_is_undecided_below_quorum() {
    assert_eq!(evaluate_tally(100, 0, 1000, 20, 51), Verdict::Undecided);
}

#[test]
fn verdict_is_passed_with_quorum_and_majority() {
    assert_eq!(evaluate_tally(1000, 0, 1000, 20, 51), Verdict::Passed);
    assert_eq!(evaluate_tally(102, 98, 1000, 20, 51), Verdict::Passed);
}

#[test]
fn verdict_is_rejected_with_quorum_and_no_majority() {
    assert_eq!(evaluate_tally(100, 100, 1000, 20, 51), Verdict::Rejected);
    assert_eq!(evaluate_tally(0, 200, 1000, 20, 51), Verdict::Rejected);
}

#[test]
fn verdict_depends_on_the_totals_only() {
    // 300 for and 200 against, however the single votes were sized.
    let one = evaluate_tally(100 + 200, 150 + 50, 1000, 20, 51);
    let other = evaluate_tally(200 + 100, 50 + 150, 1000, 20, 51);
    assert_eq!(one, other);
    assert_eq!(one, Verdict::Passed);
}

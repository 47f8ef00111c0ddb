use sns_dao::{
    calculate_user_voting_power, checked_user_voting_power, Identity, VotingPower,
    VotingPowerLedger,
};

fn who(byte: u8) -> Identity {
    Identity::new(vec![byte]).unwrap()
}

fn record(byte: u8, power: u64) -> VotingPower {
    VotingPower {
        holder: who(byte),
        power,
        campaign_investments: vec![(1, power)],
        nft_holdings: Vec::new(),
        last_updated: 0,
    }
}

#[test]
fn unknown_identity_has_no_power() {
    let ledger = VotingPowerLedger::new();
    assert_eq!(ledger.get(&who(1)), 0);
    assert_eq!(ledger.total(), 0);
}

#[test]
fn set_then_get_gives_the_power_written() {
    let mut ledger = VotingPowerLedger::new();
    ledger.set(record(1, 1000));
    assert_eq!(ledger.get(&who(1)), 1000);
    assert_eq!(ledger.get(&who(2)), 0);
}

#[test]
fn set_overwrites_the_record_of_the_same_holder() {
    let mut ledger = VotingPowerLedger::new();
    ledger.set(record(1, 1000));
    ledger.set(record(2, 50));
    ledger.set(record(1, 7));
    assert_eq!(ledger.get(&who(1)), 7);
    assert_eq!(ledger.get(&who(2)), 50);
    assert_eq!(ledger.total(), 57);
}

#[test]
fn total_is_the_sum_of_all_records() {
    let mut ledger = VotingPowerLedger::new();
    ledger.set(record(1, 1000));
    ledger.set(record(2, 0));
    ledger.set(record(3, 234));
    assert_eq!(ledger.total(), 1234);
    assert_eq!(ledger.checked_total(), Some(1234));
}

#[test]
fn checked_total_is_none_when_the_sum_does_not_fit() {
    let mut ledger = VotingPowerLedger::new();
    ledger.set(record(1, u64::MAX));
    assert_eq!(ledger.checked_total(), Some(u64::MAX));
    ledger.set(record(2, 1));
    assert_eq!(ledger.checked_total(), None);
}

#[test]
fn identities_are_told_apart_by_their_bytes() {
    let mut ledger = VotingPowerLedger::new();
    ledger.set(VotingPower {
        holder: Identity::new(vec![1, 2]).unwrap(),
        power: 5,
        campaign_investments: Vec::new(),
        nft_holdings: Vec::new(),
        last_updated: 0,
    });
    assert_eq!(ledger.get(&Identity::new(vec![1, 2]).unwrap()), 5);
    assert_eq!(ledger.get(&Identity::new(vec![1]).unwrap()), 0);
    assert_eq!(ledger.get(&Identity::new(vec![1, 2, 0]).unwrap()), 0);
    assert_eq!(ledger.get(&Identity::new(vec![2, 1]).unwrap()), 0);
    assert_eq!(ledger.get(&Identity::new(Vec::new()).unwrap()), 0);
}

#[test]
fn same_as_compares_bytes() {
    assert!(who(1).same_as(&who(1)));
    assert!(!who(1).same_as(&who(2)));
    assert!(Identity::new(Vec::new()).unwrap().same_as(&Identity::new(Vec::new()).unwrap()));
    assert!(!Identity::new(vec![1, 2, 3]).unwrap().same_as(&Identity::new(vec![1, 2]).unwrap()));
}

#[test]
fn power_counts_each_unit_invested_and_a_hundred_per_token() {
    assert_eq!(calculate_user_voting_power(&vec![(1, 500), (2, 250)], &vec![7, 8, 9]), 1050);
    assert_eq!(calculate_user_voting_power(&Vec::new(), &Vec::new()), 0);
    assert_eq!(calculate_user_voting_power(&Vec::new(), &vec![1]), 100);
    assert_eq!(calculate_user_voting_power(&vec![(9, 1)], &Vec::new()), 1);
}

#[test]
fn checked_power_is_none_when_it_does_not_fit() {
    assert_eq!(checked_user_voting_power(&vec![(1, u64::MAX)], &Vec::new()), Some(u64::MAX));
    assert_eq!(checked_user_voting_power(&vec![(1, u64::MAX), (2, 1)], &Vec::new()), None);
    assert_eq!(checked_user_voting_power(&vec![(1, u64::MAX - 99)], &vec![1]), None);
    assert_eq!(checked_user_voting_power(&vec![(1, u64::MAX - 100)], &vec![1]), Some(u64::MAX));
}

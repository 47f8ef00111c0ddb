use sns_dao::{Identity, Proposal, ProposalStatus, ProposalStore, ProposalType};

fn proposal(id: u64, proposer: u8, status: ProposalStatus) -> Proposal {
    Proposal {
        id,
        proposer: Identity::new(vec![proposer]).unwrap(),
        title: format!("proposal {}", id),
        description: String::new(),
        proposal_type: ProposalType::CampaignRefund { campaign_id: id, reason: String::new() },
        campaign_id: Some(id),
        target_canister: None,
        payload: Vec::new(),
        created_at: 10,
        voting_deadline: 20,
        status,
        votes_for: 0,
        votes_against: 0,
        total_voting_power: 0,
        execution_delay: 5,
    }
}

fn ids(list: &Vec<Proposal>) -> Vec<u64> {
    let mut out = Vec::new();
    for p in list {
        out.push(p.id);
    }
    out
}

#[test]
fn next_id_starts_at_one_and_rises_by_one() {
    let mut store = ProposalStore::new();
    assert_eq!(store.last_id(), 0);
    assert_eq!(store.next_id(), 1);
    assert_eq!(store.next_id(), 2);
    assert_eq!(store.next_id(), 3);
    assert_eq!(store.last_id(), 3);
}

#[test]
fn get_finds_what_was_put() {
    let mut store = ProposalStore::new();
    let id = store.next_id();
    store.put(id, proposal(id, 1, ProposalStatus::Open));
    assert_eq!(store.get(id), Some(proposal(id, 1, ProposalStatus::Open)));
    assert_eq!(store.get(2), None);
    assert_eq!(store.get(0), None);
}

#[test]
fn put_replaces_what_was_held_under_the_identifier() {
    let mut store = ProposalStore::new();
    let first = store.next_id();
    let second = store.next_id();
    store.put(first, proposal(first, 1, ProposalStatus::Open));
    store.put(second, proposal(second, 2, ProposalStatus::Open));
    store.put(first, proposal(first, 1, ProposalStatus::Passed));
    assert_eq!(store.len(), 2);
    assert_eq!(store.get(first).unwrap().status, ProposalStatus::Passed);
    assert_eq!(store.get(second).unwrap().status, ProposalStatus::Open);
}

#[test]
fn all_is_ordered_by_identifier_whatever_the_order_of_putting() {
    let mut store = ProposalStore::new();
    let a = store.next_id();
    let b = store.next_id();
    let c = store.next_id();
    let d = store.next_id();
    store.put(c, proposal(c, 1, ProposalStatus::Open));
    store.put(a, proposal(a, 1, ProposalStatus::Open));
    store.put(d, proposal(d, 1, ProposalStatus::Open));
    store.put(b, proposal(b, 1, ProposalStatus::Open));
    assert_eq!(ids(&store.all()), vec![1, 2, 3, 4]);
    assert_eq!(store.get(b).unwrap().id, b);
    assert_eq!(store.get(d).unwrap().id, d);
}

#[test]
fn an_identifier_handed_out_but_not_filled_is_not_found() {
    let mut store = ProposalStore::new();
    let a = store.next_id();
    let b = store.next_id();
    store.put(b, proposal(b, 1, ProposalStatus::Open));
    assert_eq!(store.get(a), None);
    assert_eq!(ids(&store.all()), vec![2]);
    assert_eq!(store.next_id(), 3);
}

#[test]
fn proposals_are_filtered_by_status() {
    let mut store = ProposalStore::new();
    for status in [
        ProposalStatus::Open,
        ProposalStatus::Passed,
        ProposalStatus::Open,
        ProposalStatus::Failed,
    ] {
        let id = store.next_id();
        store.put(id, proposal(id, 1, status));
    }
    assert_eq!(ids(&store.with_status(ProposalStatus::Open)), vec![1, 3]);
    assert_eq!(ids(&store.with_status(ProposalStatus::Passed)), vec![2]);
    assert_eq!(ids(&store.with_status(ProposalStatus::Failed)), vec![4]);
    assert_eq!(ids(&store.with_status(ProposalStatus::Executed)), Vec::<u64>::new());
}

#[test]
fn proposals_are_filtered_by_proposer() {
    let mut store = ProposalStore::new();
    for proposer in [7u8, 8, 7, 9] {
        let id = store.next_id();
        store.put(id, proposal(id, proposer, ProposalStatus::Open));
    }
    assert_eq!(ids(&store.by_proposer(&Identity::new(vec![7]).unwrap())), vec![1, 3]);
    assert_eq!(ids(&store.by_proposer(&Identity::new(vec![9]).unwrap())), vec![4]);
    assert_eq!(ids(&store.by_proposer(&Identity::new(vec![1]).unwrap())), Vec::<u64>::new());
}

#[test]
fn a_copy_of_a_proposal_equals_it() {
    let proposal = Proposal {
        proposal_type: ProposalType::OracleUpdate {
            campaign_id: 3,
            new_endpoints: vec!["https://a.example".to_string(), "https://b.example".to_string()],
        },
        target_canister: Some(Identity::new(vec![4, 5]).unwrap()),
        payload: vec![1, 2, 3],
        ..proposal(3, 1, ProposalStatus::Open)
    };
    assert_eq!(proposal.clone(), proposal);
}

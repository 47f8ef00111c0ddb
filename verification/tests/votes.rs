use sns_dao::{Identity, Vote, VoteBook, VoteOption};

fn vote(proposal_id: u64, voter: u8, side: VoteOption, power: u64) -> Vote {
    Vote {
        proposal_id,
        voter: Identity::new(vec![voter]).unwrap(),
        vote: side,
        voting_power: power,
        timestamp: 100 + proposal_id,
    }
}

#[test]
fn an_empty_book_has_no_votes() {
    let book = VoteBook::new();
    assert!(!book.has_voted(1, &Identity::new(vec![1]).unwrap()));
    assert!(book.for_proposal(1).is_empty());
    assert!(book.by_voter(&Identity::new(vec![1]).unwrap()).is_empty());
}

#[test]
fn a_recorded_vote_is_found_under_its_proposal_and_voter_only() {
    let mut book = VoteBook::new();
    book.record(vote(1, 7, VoteOption::For, 10));
    assert!(book.has_voted(1, &Identity::new(vec![7]).unwrap()));
    assert!(!book.has_voted(2, &Identity::new(vec![7]).unwrap()));
    assert!(!book.has_voted(1, &Identity::new(vec![8]).unwrap()));
}

#[test]
fn votes_are_listed_by_proposal() {
    let mut book = VoteBook::new();
    book.record(vote(1, 7, VoteOption::For, 10));
    book.record(vote(2, 7, VoteOption::Against, 10));
    book.record(vote(1, 8, VoteOption::Abstain, 20));
    assert_eq!(
        book.for_proposal(1),
        vec![vote(1, 7, VoteOption::For, 10), vote(1, 8, VoteOption::Abstain, 20)]
    );
    assert_eq!(book.for_proposal(2), vec![vote(2, 7, VoteOption::Against, 10)]);
    assert_eq!(book.for_proposal(3), Vec::<Vote>::new());
}

#[test]
fn votes_are_listed_by_voter() {
    let mut book = VoteBook::new();
    book.record(vote(1, 7, VoteOption::For, 10));
    book.record(vote(2, 7, VoteOption::Against, 10));
    book.record(vote(1, 8, VoteOption::Abstain, 20));
    assert_eq!(
        book.by_voter(&Identity::new(vec![7]).unwrap()),
        vec![vote(1, 7, VoteOption::For, 10), vote(2, 7, VoteOption::Against, 10)]
    );
    assert_eq!(book.by_voter(&Identity::new(vec![8]).unwrap()), vec![vote(1, 8, VoteOption::Abstain, 20)]);
    assert_eq!(book.by_voter(&Identity::new(vec![9]).unwrap()), Vec::<Vote>::new());
}

#[test]
fn votes_are_kept_by_proposal_and_voter_whatever_the_order_of_casting() {
    let mut book = VoteBook::new();
    book.record(vote(2, 8, VoteOption::For, 1));
    book.record(vote(1, 9, VoteOption::Against, 2));
    book.record(vote(2, 7, VoteOption::Abstain, 3));
    book.record(vote(1, 3, VoteOption::For, 4));
    assert_eq!(
        book.for_proposal(1),
        vec![vote(1, 3, VoteOption::For, 4), vote(1, 9, VoteOption::Against, 2)]
    );
    assert_eq!(
        book.for_proposal(2),
        vec![vote(2, 7, VoteOption::Abstain, 3), vote(2, 8, VoteOption::For, 1)]
    );
}

#[test]
fn the_votes_of_a_voter_are_listed_by_proposal() {
    let mut book = VoteBook::new();
    book.record(vote(3, 7, VoteOption::For, 1));
    book.record(vote(1, 7, VoteOption::Against, 2));
    book.record(vote(2, 7, VoteOption::Abstain, 3));
    book.record(vote(2, 8, VoteOption::For, 4));
    assert_eq!(
        book.by_voter(&Identity::new(vec![7]).unwrap()),
        vec![
            vote(1, 7, VoteOption::Against, 2),
            vote(2, 7, VoteOption::Abstain, 3),
            vote(3, 7, VoteOption::For, 1),
        ]
    );
}

#[test]
fn within_a_proposal_a_shorter_identity_comes_first() {
    let long = Identity::new(vec![0, 0]).unwrap();
    let short = Identity::new(vec![200]).unwrap();
    let cast = |voter: &Identity| Vote {
        proposal_id: 1,
        voter: voter.clone(),
        vote: VoteOption::For,
        voting_power: 5,
        timestamp: 0,
    };
    let mut book = VoteBook::new();
    book.record(cast(&long));
    book.record(cast(&short));
    assert_eq!(book.for_proposal(1), vec![cast(&short), cast(&long)]);
}

#[test]
fn a_vote_comes_back_as_it_was_recorded() {
    let mut book = VoteBook::new();
    let full = Vote {
        proposal_id: u64::MAX,
        voter: Identity::new(vec![255; 29]).unwrap(),
        vote: VoteOption::Against,
        voting_power: u64::MAX,
        timestamp: u64::MAX - 1,
    };
    let empty = Vote {
        proposal_id: 0,
        voter: Identity::new(Vec::new()).unwrap(),
        vote: VoteOption::Abstain,
        voting_power: 0,
        timestamp: 0,
    };
    book.record(full.clone());
    book.record(empty.clone());
    assert_eq!(book.for_proposal(u64::MAX), vec![full.clone()]);
    assert_eq!(book.for_proposal(0), vec![empty.clone()]);
    assert!(book.has_voted(u64::MAX, &full.voter));
    assert!(book.has_voted(0, &empty.voter));
    assert!(!book.has_voted(0, &full.voter));
}

#[test]
fn two_books_do_not_share_their_votes() {
    let mut one = VoteBook::new();
    let other = VoteBook::new();
    one.record(vote(1, 7, VoteOption::For, 10));
    assert!(one.has_voted(1, &Identity::new(vec![7]).unwrap()));
    assert!(!other.has_voted(1, &Identity::new(vec![7]).unwrap()));
    assert!(other.for_proposal(1).is_empty());
}

#[test]
fn many_votes_are_all_kept() {
    let mut book = VoteBook::new();
    for proposal in (1..=20u64).rev() {
        for voter in (0..50u8).rev() {
            book.record(vote(proposal, voter, VoteOption::For, 1));
        }
    }
    for proposal in 1..=20u64 {
        let listed = book.for_proposal(proposal);
        assert_eq!(listed.len(), 50);
        for (at, held) in listed.iter().enumerate() {
            assert_eq!(held.voter, Identity::new(vec![at as u8]).unwrap());
        }
    }
    assert_eq!(book.by_voter(&Identity::new(vec![49]).unwrap()).len(), 20);
    assert!(!book.has_voted(21, &Identity::new(vec![0]).unwrap()));
}

#[test]
fn the_order_of_the_book_is_by_proposal_then_length_then_bytes() {
    // identities of mixed lengths, from a fixed sequence of numbers
    let mut seed: u64 = 0x2545_f491_4f6c_dd1d;
    let mut next = move || {
        seed ^= seed << 13;
        seed ^= seed >> 7;
        seed ^= seed << 17;
        seed
    };
    let mut keys: Vec<(u64, Vec<u8>)> = Vec::new();
    while keys.len() < 300 {
        let proposal = next() % 5;
        let length = (next() % 4) as usize;
        let bytes: Vec<u8> = (0..length).map(|_| (next() % 3) as u8 * 100).collect();
        if !keys.contains(&(proposal, bytes.clone())) {
            keys.push((proposal, bytes));
        }
        if keys.len() == 5 * (1 + 3 + 9 + 27) {
            break;
        }
    }
    let mut book = VoteBook::new();
    for (at, (proposal, bytes)) in keys.iter().enumerate() {
        book.record(Vote {
            proposal_id: *proposal,
            voter: Identity::new(bytes.clone()).unwrap(),
            vote: VoteOption::For,
            voting_power: at as u64 + 1,
            timestamp: 0,
        });
    }
    for proposal in 0..5u64 {
        let mut expected: Vec<Vec<u8>> =
            keys.iter().filter(|k| k.0 == proposal).map(|k| k.1.clone()).collect();
        expected.sort_by(|a, b| (a.len(), a).cmp(&(b.len(), b)));
        let listed: Vec<Vec<u8>> =
            book.for_proposal(proposal).iter().map(|v| v.voter.as_bytes().clone()).collect();
        assert_eq!(listed, expected);
    }
    for (at, (proposal, bytes)) in keys.iter().enumerate() {
        let voter = Identity::new(bytes.clone()).unwrap();
        assert!(book.has_voted(*proposal, &voter));
        let of_voter = book.by_voter(&voter);
        assert!(of_voter.windows(2).all(|w| w[0].proposal_id < w[1].proposal_id));
        assert!(of_voter.iter().any(|v| v.proposal_id == *proposal && v.voting_power == at as u64 + 1));
    }
}

#[test]
fn precedes_is_the_order_of_the_book() {
    let identities: Vec<Identity> = vec![
        Vec::new(),
        vec![0],
        vec![255],
        vec![0, 0],
        vec![0, 1],
        vec![1, 0],
        vec![255, 255],
        vec![0, 0, 0],
        vec![7; 29],
        vec![8; 29],
    ]
    .into_iter()
    .map(|bytes| Identity::new(bytes).unwrap())
    .collect();
    let mut book = VoteBook::new();
    for voter in identities.iter().rev() {
        book.record(Vote {
            proposal_id: 1,
            voter: voter.clone(),
            vote: VoteOption::Abstain,
            voting_power: 1,
            timestamp: 0,
        });
    }
    let listed: Vec<Identity> = book.for_proposal(1).into_iter().map(|v| v.voter).collect();
    assert_eq!(listed, identities);
    for (i, a) in identities.iter().enumerate() {
        for (j, b) in identities.iter().enumerate() {
            assert_eq!(a.precedes(b), i < j);
        }
    }
}

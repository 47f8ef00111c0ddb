use sns_dao::{Identity, VoteOption, MAX_IDENTITY_BYTES};

fn id(bytes: &[u8]) -> Identity {
    Identity::new(bytes.to_vec()).unwrap()
}

#[test]
fn an_identity_has_at_most_twenty_nine_bytes() {
    assert!(Identity::new(vec![7; 29]).is_some());
    assert!(Identity::new(vec![7; 30]).is_none());
    assert!(Identity::new(Vec::new()).is_some());
    assert_eq!(MAX_IDENTITY_BYTES, 29);
}

#[test]
fn an_identity_gives_its_bytes_back() {
    assert_eq!(id(&[1, 2, 3]).as_bytes(), &vec![1u8, 2, 3]);
    assert_eq!(id(&[]).as_bytes(), &Vec::<u8>::new());
}

#[test]
fn a_copy_of_an_identity_is_the_same_participant() {
    let identity = id(&[9, 8, 7]);
    let copy = identity.clone();
    assert!(copy.same_as(&identity));
    assert_eq!(copy, identity);
}

#[test]
fn a_shorter_identity_comes_first() {
    assert!(id(&[9]).precedes(&id(&[1, 1])));
    assert!(!id(&[1, 1]).precedes(&id(&[9])));
    assert!(id(&[]).precedes(&id(&[0])));
}

#[test]
fn of_one_length_the_first_differing_byte_decides() {
    assert!(id(&[1, 2, 3]).precedes(&id(&[1, 2, 4])));
    assert!(id(&[1, 2, 3]).precedes(&id(&[1, 3, 0])));
    assert!(!id(&[1, 3, 0]).precedes(&id(&[1, 2, 3])));
    assert!(id(&[0, 255]).precedes(&id(&[1, 0])));
}

#[test]
fn no_identity_comes_before_itself() {
    assert!(!id(&[1, 2, 3]).precedes(&id(&[1, 2, 3])));
    assert!(!id(&[]).precedes(&id(&[])));
}

#[test]
fn sides_are_kept_under_their_numbers() {
    assert_eq!(VoteOption::For.code(), 0);
    assert_eq!(VoteOption::Against.code(), 1);
    assert_eq!(VoteOption::Abstain.code(), 2);
    for side in [VoteOption::For, VoteOption::Against, VoteOption::Abstain] {
        assert_eq!(VoteOption::from_code(side.code()), side);
    }
    assert_eq!(VoteOption::from_code(200), VoteOption::Abstain);
}

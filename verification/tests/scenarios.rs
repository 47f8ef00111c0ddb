use sns_dao::{
    DAOConfig, ExecutorCall, ExecutorReply, Governance, GovernanceError, Identity, ProposalStatus,
    ProposalType, StateFault, ValidationFault, VoteOption,
};

const DAY: u64 = 86_400_000_000_000;
const NOW: u64 = 1_700_000_000_000_000_000;

fn a() -> Identity {
    Identity::new(vec![0x0a]).unwrap()
}

fn b() -> Identity {
    Identity::new(vec![0x0b]).unwrap()
}

/// Power 1000 for A, 0 for B, and the parameters 1000 / 20 / 51 / 7 days / 2 days / 75.
fn engine() -> Governance {
    let mut engine = Governance::new(DAOConfig {
        min_proposal_threshold: 1000,
        quorum_threshold: 20,
        pass_threshold: 51,
        voting_period: 7 * DAY,
        execution_delay: 2 * DAY,
        emergency_threshold: 75,
    });
    engine.update_voting_power(a(), Vec::new(), vec![1, 2, 3, 4, 5, 6, 7, 8, 9, 10], NOW).unwrap();
    engine.update_voting_power(b(), Vec::new(), Vec::new(), NOW).unwrap();
    engine
}

fn submit_refund(engine: &mut Governance) -> u64 {
    engine
        .submit_proposal(
            a(),
            "Refund".to_string(),
            "Refund campaign 5".to_string(),
            ProposalType::CampaignRefund { campaign_id: 5, reason: "stalled".to_string() },
            None,
            Vec::new(),
            NOW,
        )
        .unwrap()
}

#[test]
fn scenario_submission_and_decisive_vote() {
    let mut engine = engine();
    assert_eq!(engine.get_voting_power(&a()), 1000);
    assert_eq!(engine.get_voting_power(&b()), 0);
    let id = submit_refund(&mut engine);
    assert_eq!(id, 1);
    let proposal = engine.get_proposal(1).unwrap();
    assert_eq!(proposal.status, ProposalStatus::Open);
    assert_eq!(proposal.total_voting_power, 1000);
    assert_eq!(proposal.campaign_id, Some(5));
    assert_eq!(proposal.voting_deadline, NOW + 7 * DAY);

    // well before the deadline
    assert_eq!(engine.vote_on_proposal(&a(), 1, VoteOption::For, NOW + 1), Ok(()));
    let proposal = engine.get_proposal(1).unwrap();
    assert_eq!(proposal.votes_for, 1000);
    assert_eq!(proposal.votes_against, 0);
    assert_eq!(proposal.status, ProposalStatus::Passed);
}

#[test]
fn scenario_vote_without_power() {
    let mut engine = engine();
    submit_refund(&mut engine);
    assert_eq!(
        engine.vote_on_proposal(&b(), 1, VoteOption::For, NOW + 1),
        Err(GovernanceError::Validation(ValidationFault::NoVotingPower))
    );
    assert!(engine.get_proposal_votes(1).is_empty());
    assert!(engine.get_user_votes(&b()).is_empty());
    let proposal = engine.get_proposal(1).unwrap();
    assert_eq!((proposal.votes_for, proposal.votes_against), (0, 0));
    assert_eq!(proposal.status, ProposalStatus::Open);
}

#[test]
fn scenario_second_vote() {
    let mut engine = engine();
    submit_refund(&mut engine);
    engine.vote_on_proposal(&a(), 1, VoteOption::For, NOW + 1).unwrap();
    let before = engine.get_proposal(1).unwrap();
    let second = engine.vote_on_proposal(&a(), 1, VoteOption::Against, NOW + 2);
    // the first vote settled the proposal, so the status is tested first
    assert_eq!(second, Err(GovernanceError::State(StateFault::NotOpen)));
    assert_eq!(engine.get_proposal(1).unwrap(), before);
    assert_eq!(engine.get_proposal_votes(1).len(), 1);
}

#[test]
fn scenario_execution_waits_for_the_delay() {
    let mut engine = engine();
    submit_refund(&mut engine);
    engine.vote_on_proposal(&a(), 1, VoteOption::For, NOW + 1).unwrap();
    let ready = NOW + 7 * DAY + 2 * DAY;
    assert_eq!(
        engine.begin_execution(1, ready - 1),
        Err(GovernanceError::State(StateFault::DelayNotElapsed))
    );
    assert_eq!(engine.get_proposal(1).unwrap().status, ProposalStatus::Passed);
    assert_eq!(
        engine.begin_execution(1, ready),
        Ok(Some(ExecutorCall::InitiateRefund { campaign_id: 5 }))
    );
    assert_eq!(engine.get_proposal(1).unwrap().status, ProposalStatus::Executing);
    assert_eq!(engine.complete_execution(1, ExecutorReply::Done), Ok(()));
    assert_eq!(engine.get_proposal(1).unwrap().status, ProposalStatus::Executed);
}

#[test]
fn scenario_execution_long_after_the_delay() {
    let mut engine = engine();
    submit_refund(&mut engine);
    engine.vote_on_proposal(&a(), 1, VoteOption::For, NOW + 1).unwrap();
    assert_eq!(
        engine.begin_execution(1, u64::MAX),
        Ok(Some(ExecutorCall::InitiateRefund { campaign_id: 5 }))
    );
}

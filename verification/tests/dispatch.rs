use sns_dao::{plan_call, settle, ExecutorCall, ExecutorReply, GovernanceError, ProposalType};

fn early_unlock() -> ProposalType {
    ProposalType::EarlyUnlock { stream_id: 11, reason: "hardship".to_string() }
}

#[test]
fn early_unlock_calls_for_the_stream() {
    assert_eq!(plan_call(&early_unlock()), Some(ExecutorCall::UnlockStreamEarly { stream_id: 11 }));
}

#[test]
fn campaign_refund_calls_for_the_campaign() {
    let kind = ProposalType::CampaignRefund { campaign_id: 5, reason: "stalled".to_string() };
    assert_eq!(plan_call(&kind), Some(ExecutorCall::InitiateRefund { campaign_id: 5 }));
}

#[test]
fn revenue_share_update_carries_the_percentage() {
    let kind = ProposalType::UpdateRevenueShare { campaign_id: 5, new_percentage: 30 };
    assert_eq!(
        plan_call(&kind),
        Some(ExecutorCall::UpdateRevenueShare { campaign_id: 5, new_percentage: 30 })
    );
}

#[test]
fn dispute_resolution_carries_the_amount() {
    let kind = ProposalType::DisputeResolution {
        campaign_id: 5,
        disputed_amount: 999,
        resolution: "split".to_string(),
    };
    assert_eq!(
        plan_call(&kind),
        Some(ExecutorCall::ResolveDispute { campaign_id: 5, disputed_amount: 999 })
    );
}

#[test]
fn oracle_update_carries_the_endpoints() {
    let endpoints = vec!["https://a.example".to_string(), "https://b.example".to_string()];
    let kind = ProposalType::OracleUpdate { campaign_id: 5, new_endpoints: endpoints.clone() };
    assert_eq!(
        plan_call(&kind),
        Some(ExecutorCall::UpdateEndpoints { campaign_id: 5, new_endpoints: endpoints })
    );
}

#[test]
fn emergency_has_no_call() {
    let kind = ProposalType::Emergency {
        action: "halt".to_string(),
        justification: "exploit".to_string(),
    };
    assert_eq!(plan_call(&kind), None);
}

#[test]
fn done_settles_as_success() {
    assert_eq!(settle(&early_unlock(), ExecutorReply::Done), Ok(()));
}

#[test]
fn refusal_passes_the_message_on() {
    assert_eq!(
        settle(&early_unlock(), ExecutorReply::Refused("stream is closed".to_string())),
        Err(GovernanceError::ExternalCall("stream is closed".to_string()))
    );
}

#[test]
fn transport_failure_is_reported_behind_the_words_for_the_action() {
    let detail = || ExecutorReply::Unreachable("timeout".to_string());
    let message = |kind: &ProposalType| match settle(kind, detail()) {
        Err(GovernanceError::ExternalCall(text)) => text,
        other => panic!("unexpected outcome: {:?}", other),
    };
    assert_eq!(message(&early_unlock()), "Failed to call stream canister: timeout");
    assert_eq!(
        message(&ProposalType::CampaignRefund { campaign_id: 1, reason: String::new() }),
        "Failed to call vault canister: timeout"
    );
    assert_eq!(
        message(&ProposalType::UpdateRevenueShare { campaign_id: 1, new_percentage: 1 }),
        "Failed to update revenue share: timeout"
    );
    assert_eq!(
        message(&ProposalType::DisputeResolution {
            campaign_id: 1,
            disputed_amount: 1,
            resolution: String::new(),
        }),
        "Failed to resolve dispute: timeout"
    );
    assert_eq!(
        message(&ProposalType::OracleUpdate { campaign_id: 1, new_endpoints: Vec::new() }),
        "Failed to update oracle endpoints: timeout"
    );
}

//! From a proposal to the call on the action executor, and from what the
//! executor answered to the outcome of the execution.
//!
//! The call itself is made outside this crate: the engine says which call
//! to make, and is told afterwards what came back.

use vstd::prelude::*;
use crate::error::{GovernanceError, GovernanceErrorView};
use crate::types::{clone_strings, texts, ProposalType, ProposalTypeView};

verus! {

/// A call on the action executor: one variant per action, with its arguments.
#[derive(Debug, PartialEq, Eq)]
pub enum ExecutorCall {
    /// Unlock a stream before its term.
    UnlockStreamEarly { stream_id: u64 },
    /// Start the refund of a campaign.
    InitiateRefund { campaign_id: u64 },
    /// Set the revenue share of a campaign.
    UpdateRevenueShare { campaign_id: u64, new_percentage: u8 },
    /// Settle a disputed amount of a campaign.
    ResolveDispute { campaign_id: u64, disputed_amount: u64 },
    /// Replace the oracle endpoints of a campaign.
    UpdateEndpoints { campaign_id: u64, new_endpoints: Vec<String> },
}

/// The value of an [`ExecutorCall`].
pub enum ExecutorCallView {
    UnlockStreamEarly { stream_id: u64 },
    InitiateRefund { campaign_id: u64 },
    UpdateRevenueShare { campaign_id: u64, new_percentage: u8 },
    ResolveDispute { campaign_id: u64, disputed_amount: u64 },
    UpdateEndpoints { campaign_id: u64, new_endpoints: Seq<Seq<char>> },
}

impl View for ExecutorCall {
    type V = ExecutorCallView;

    open spec fn view(&self) -> ExecutorCallView {
        match *self {
            ExecutorCall::UnlockStreamEarly { stream_id } => ExecutorCallView::UnlockStreamEarly {
                stream_id,
            },
            ExecutorCall::InitiateRefund { campaign_id } => ExecutorCallView::InitiateRefund {
                campaign_id,
            },
            ExecutorCall::UpdateRevenueShare {
                campaign_id,
                new_percentage,
            } => ExecutorCallView::UpdateRevenueShare { campaign_id, new_percentage },
            ExecutorCall::ResolveDispute {
                campaign_id,
                disputed_amount,
            } => ExecutorCallView::ResolveDispute { campaign_id, disputed_amount },
            ExecutorCall::UpdateEndpoints {
                campaign_id,
                new_endpoints,
            } => ExecutorCallView::UpdateEndpoints {
                campaign_id,
                new_endpoints: texts(new_endpoints@),
            },
        }
    }
}

/// The value of an optional call.
pub open spec fn call_option_view(call: Option<ExecutorCall>) -> Option<ExecutorCallView> {
    match call {
        Some(c) => Some(c@),
        None => None,
    }
}

/// The call that carries out a proposal of the given type. An emergency
/// proposal has no call: nothing outside the engine carries it out.
pub open spec fn planned_call(proposal_type: ProposalTypeView) -> Option<ExecutorCallView> {
    match proposal_type {
        ProposalTypeView::EarlyUnlock { stream_id, .. } => Some(
            ExecutorCallView::UnlockStreamEarly { stream_id },
        ),
        ProposalTypeView::CampaignRefund { campaign_id, .. } => Some(
            ExecutorCallView::InitiateRefund { campaign_id },
        ),
        ProposalTypeView::UpdateRevenueShare { campaign_id, new_percentage } => Some(
            ExecutorCallView::UpdateRevenueShare { campaign_id, new_percentage },
        ),
        ProposalTypeView::DisputeResolution { campaign_id, disputed_amount, .. } => Some(
            ExecutorCallView::ResolveDispute { campaign_id, disputed_amount },
        ),
        ProposalTypeView::OracleUpdate { campaign_id, new_endpoints } => Some(
            ExecutorCallView::UpdateEndpoints { campaign_id, new_endpoints },
        ),
        ProposalTypeView::Emergency { .. } => None,
    }
}

/// Turns the payload of a proposal into the call that carries it out.
pub fn plan_call(proposal_type: &ProposalType) -> (call: Option<ExecutorCall>)
    ensures
        call_option_view(call) == planned_call(proposal_type@),
{
    match proposal_type {
        ProposalType::EarlyUnlock { stream_id, .. } => Some(
            ExecutorCall::UnlockStreamEarly { stream_id: *stream_id },
        ),
        ProposalType::CampaignRefund { campaign_id, .. } => Some(
            ExecutorCall::InitiateRefund { campaign_id: *campaign_id },
        ),
        ProposalType::UpdateRevenueShare { campaign_id, new_percentage } => Some(
            ExecutorCall::UpdateRevenueShare {
                campaign_id: *campaign_id,
                new_percentage: *new_percentage,
            },
        ),
        ProposalType::DisputeResolution { campaign_id, disputed_amount, .. } => Some(
            ExecutorCall::ResolveDispute {
                campaign_id: *campaign_id,
                disputed_amount: *disputed_amount,
            },
        ),
        ProposalType::OracleUpdate { campaign_id, new_endpoints } => Some(
            ExecutorCall::UpdateEndpoints {
                campaign_id: *campaign_id,
                new_endpoints: clone_strings(new_endpoints),
            },
        ),
        ProposalType::Emergency { .. } => None,
    }
}

/// What came back from the action executor.
#[derive(Debug, PartialEq, Eq)]
pub enum ExecutorReply {
    /// The executor carried the action out.
    Done,
    /// The executor answered that it failed, with its message.
    Refused(String),
    /// No answer was had from the executor; with what the transport reported.
    Unreachable(String),
}

/// The value of an [`ExecutorReply`].
pub enum ExecutorReplyView {
    Done,
    Refused(Seq<char>),
    Unreachable(Seq<char>),
}

impl View for ExecutorReply {
    type V = ExecutorReplyView;

    open spec fn view(&self) -> ExecutorReplyView {
        match *self {
            ExecutorReply::Done => ExecutorReplyView::Done,
            ExecutorReply::Refused(message) => ExecutorReplyView::Refused(message@),
            ExecutorReply::Unreachable(detail) => ExecutorReplyView::Unreachable(detail@),
        }
    }
}

/// The words put before what the transport reported, by the type of
/// proposal; none for an emergency proposal, which has no call.
pub open spec fn transport_prefix(proposal_type: ProposalTypeView) -> Seq<char> {
    match proposal_type {
        ProposalTypeView::EarlyUnlock { .. } => "Failed to call stream canister: "@,
        ProposalTypeView::CampaignRefund { .. } => "Failed to call vault canister: "@,
        ProposalTypeView::UpdateRevenueShare { .. } => "Failed to update revenue share: "@,
        ProposalTypeView::DisputeResolution { .. } => "Failed to resolve dispute: "@,
        ProposalTypeView::OracleUpdate { .. } => "Failed to update oracle endpoints: "@,
        ProposalTypeView::Emergency { .. } => ""@,
    }
}

/// The outcome of an execution: success, or the failure with the message
/// the caller is given. A refusal passes the executor's message on as it
/// is; a transport failure is reported behind the words for the action.
pub open spec fn outcome_of(proposal_type: ProposalTypeView, reply: ExecutorReplyView) -> Result<
    (),
    GovernanceErrorView,
> {
    match reply {
        ExecutorReplyView::Done => Ok(()),
        ExecutorReplyView::Refused(message) => Err(GovernanceErrorView::ExternalCall(message)),
        ExecutorReplyView::Unreachable(detail) => Err(
            GovernanceErrorView::ExternalCall(transport_prefix(proposal_type) + detail),
        ),
    }
}

/// The words put before what the transport reported.
fn prefix_for(proposal_type: &ProposalType) -> (prefix: &'static str)
    ensures
        prefix@ == transport_prefix(proposal_type@),
{
    match proposal_type {
        ProposalType::EarlyUnlock { .. } => "Failed to call stream canister: ",
        ProposalType::CampaignRefund { .. } => "Failed to call vault canister: ",
        ProposalType::UpdateRevenueShare { .. } => "Failed to update revenue share: ",
        ProposalType::DisputeResolution { .. } => "Failed to resolve dispute: ",
        ProposalType::OracleUpdate { .. } => "Failed to update oracle endpoints: ",
        ProposalType::Emergency { .. } => "",
    }
}

/// Turns what came back from the executor into the outcome of the execution.
pub fn settle(proposal_type: &ProposalType, reply: ExecutorReply) -> (outcome: Result<
    (),
    GovernanceError,
>)
    ensures
        crate::error::unit_result_view(outcome) == outcome_of(proposal_type@, reply@),
{
    match reply {
        ExecutorReply::Done => Ok(()),
        ExecutorReply::Refused(message) => Err(GovernanceError::ExternalCall(message)),
        ExecutorReply::Unreachable(detail) => {
            let mut message = prefix_for(proposal_type).to_owned();
            message.append(detail.as_str());
            Err(GovernanceError::ExternalCall(message))
        },
    }
}

} // verus!

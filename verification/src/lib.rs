//! A governance engine: participants submit proposals, vote on them with
//! weighted voting power, and a proposal that clears quorum and the pass
//! threshold is handed to an action executor once its delay has elapsed.
//!
//! [`Governance`] is the engine. It owns the parameters, the voting-power
//! ledger, the proposals and the votes, and is told the time and the
//! caller's identity with each request. [`model`] describes it as a state
//! machine, [`preservation`] shows that every action keeps its invariant,
//! and [`laws`] holds what is proved of the machine.
//!
//! The functions of this crate are verified with Verus against the
//! contracts written in their headers. The exception is [`vote_tree`]: the
//! votes are kept in a B-tree map of `ic_stable_structures`, and the four
//! functions of that module state what is taken for granted of the map.

pub mod dispatch;
pub mod engine;
pub mod error;
pub mod laws;
pub mod ledger;
pub mod model;
pub mod preservation;
pub mod store;
pub mod tally;
pub mod types;
pub mod vote_tree;
pub mod votes;

pub use dispatch::{plan_call, settle, ExecutorCall, ExecutorReply};
pub use engine::Governance;
pub use error::{GovernanceError, StateFault, ValidationFault};
pub use ledger::{calculate_user_voting_power, checked_user_voting_power, VotingPowerLedger};
pub use store::ProposalStore;
pub use tally::{evaluate_tally, has_quorum, reaches_threshold, Verdict};
pub use types::{
    DAOConfig, Identity, Proposal, ProposalStatus, ProposalType, Vote, VoteOption, VotingPower,
    MAX_IDENTITY_BYTES,
};
pub use votes::VoteBook;

//! Voting by token weight, with delegation, on changes to the invoice contract.

pub mod chain;
pub mod contract;
pub mod delegation;
pub mod env;
pub mod errors;
pub mod laws;
pub mod limits;
pub mod links;
pub mod operations;
pub mod proposal;
pub mod weights;

pub use contract::GovContract;
pub use env::{Env, StorageKey};
pub use errors::GovernanceError;
pub use proposal::{
    GovernanceProposal, ProposalAction, ProposalStatus, VoteCast, VotesDelegated, VotesUndelegated,
};

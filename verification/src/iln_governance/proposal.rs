//! Proposals, and the events about them.

use crate::host::{Address, Hash32};
use vstd::prelude::*;

verus! {

/// What a proposal would have the invoice contract do.
#[derive(Clone, Copy, Debug, PartialEq, Eq, Structural)]
pub enum ProposalAction {
    UpdateFeeRate(u32),
    AddToken(Address),
    RemoveToken(Address),
    UpdateMaxDiscountRate(u32),
}

impl ProposalAction {
    /// The entry point of the invoice contract that carries the action out, with
    /// the value inside as its argument.
    pub fn entry_point(self) -> (r: &'static str)
        ensures
            r@ == (match self {
                ProposalAction::UpdateFeeRate(_) => "update_fee_rate"@,
                ProposalAction::AddToken(_) => "add_token"@,
                ProposalAction::RemoveToken(_) => "remove_token"@,
                ProposalAction::UpdateMaxDiscountRate(_) => "update_max_discount"@,
            }),
    {
        match self {
            ProposalAction::UpdateFeeRate(_) => "update_fee_rate",
            ProposalAction::AddToken(_) => "add_token",
            ProposalAction::RemoveToken(_) => "remove_token",
            ProposalAction::UpdateMaxDiscountRate(_) => "update_max_discount",
        }
    }
}

#[derive(Clone, Copy, Debug, PartialEq, Eq, Structural)]
pub enum ProposalStatus {
    Active,
    Passed,
    Rejected,
    Executed,
}

#[derive(Clone, Copy, Debug, PartialEq)]
pub struct GovernanceProposal {
    pub id: u64,
    pub proposer: Address,
    pub description_hash: Hash32,
    pub action_type: ProposalAction,
    pub proposed_value: i128,
    pub status: ProposalStatus,
    pub votes_for: i128,
    pub votes_against: i128,
    pub created_at: u64,
    pub voting_end: u64,
}

impl View for GovernanceProposal {
    type V = GovernanceProposal;

    open spec fn view(&self) -> GovernanceProposal {
        *self
    }
}

#[derive(Clone, Copy, Debug, PartialEq)]
pub struct VoteCast {
    pub proposal_id: u64,
    pub voter: Address,
    pub support: bool,
    pub weight: i128,
}

#[derive(Clone, Copy, Debug, PartialEq)]
pub struct VotesDelegated {
    pub delegator: Address,
    pub delegate: Address,
}

#[derive(Clone, Copy, Debug, PartialEq)]
pub struct VotesUndelegated {
    pub delegator: Address,
}

/// Any event of the contract.
#[derive(Clone, Copy, Debug, PartialEq)]
pub enum Event {
    VoteCast(VoteCast),
    VotesDelegated(VotesDelegated),
    VotesUndelegated(VotesUndelegated),
}

} // verus!

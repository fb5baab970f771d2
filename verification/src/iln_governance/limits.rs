//! Whether a call stays within what its numbers can hold, and finds the contract
//! set up. A caller that cannot know beforehand asks here first.

use crate::host::Address;
use crate::iln_governance::contract::{
    execute_fits, vote_fits, GovContract, VOTING_PERIOD_SECONDS,
};
use crate::iln_governance::delegation::{delegation_fits, withdrawal_fits};
use crate::iln_governance::env::{Env, StorageKey};
use crate::iln_governance::links::{look_up, Links};
use crate::iln_governance::proposal::{GovernanceProposal, ProposalStatus};
use vstd::prelude::*;

verus! {

/// Whether [`GovContract::create_proposal`] can be called.
pub fn can_propose(env: &Env) -> (r: bool)
    ensures
        r == (env@.gov_token is Some && env@.proposal_count() < u64::MAX && env@.ledger.timestamp
            + VOTING_PERIOD_SECONDS <= u64::MAX),
{
    env.gov_token.is_some() && env.proposal_count.unwrap_or(0) < u64::MAX
        && env.ledger.timestamp.checked_add(VOTING_PERIOD_SECONDS).is_some()
}

/// Whether [`GovContract::undelegate_votes`] can be called.
pub fn can_undelegate(env: &Env, delegator: &Address) -> (r: bool)
    ensures
        r == withdrawal_fits(env@, *delegator),
{
    if env.links.delegate_of(delegator).is_none() {
        return true;
    }
    let mut links: Links = env.links.copy();
    env.gov_token.is_some() && links.cut(delegator, env.balance(delegator))
}

/// Whether [`GovContract::delegate_votes`] can be called.
pub fn can_delegate(env: &Env, delegator: &Address, delegate: &Address) -> (r: bool)
    ensures
        r == delegation_fits(env@, *delegator, *delegate),
{
    if *delegator == *delegate || env.links.leads_to(delegate, delegator) {
        return true;
    }
    let balance: i128 = env.balance(delegator);
    let mut links: Links = env.links.copy();
    env.gov_token.is_some() && links.cut(delegator, balance) && links.tie(
        delegator,
        balance,
        delegate,
    )
}

/// Whether [`GovContract::cast_vote`] can be called.
pub fn can_vote(env: &Env, voter: &Address, proposal_id: u64, support: bool) -> (r: bool)
    ensures
        r == vote_fits(env@, *voter, proposal_id, support),
{
    let proposal: GovernanceProposal = match GovContract::get_proposal(env, proposal_id) {
        Ok(proposal) => proposal,
        Err(_) => return true,
    };
    if env.ledger.timestamp >= proposal.voting_end || proposal.status != ProposalStatus::Active
        || GovContract::has_voted(env, *voter, proposal_id) {
        return true;
    }
    let own: i128 = match env.snapshots.get(
        &StorageKey::VoteWeightSnapshot(proposal_id, *voter),
    ) {
        Some(weight) => *weight,
        None => env.balance(voter),
    };
    if env.gov_token.is_none() {
        return false;
    }
    match own.checked_add(look_up(&env.links.delegated, voter)) {
        Some(weight) => {
            let sum: i128 = if support {
                proposal.votes_for
            } else {
                proposal.votes_against
            };
            weight == 0 || sum.checked_add(weight).is_some()
        },
        None => false,
    }
}

/// Whether [`GovContract::execute_proposal`] can be called.
pub fn can_execute(env: &Env, proposal_id: u64, total_supply: i128) -> (r: bool)
    ensures
        r == execute_fits(env@, proposal_id, total_supply as int),
{
    let proposal: GovernanceProposal = match GovContract::get_proposal(env, proposal_id) {
        Ok(proposal) => proposal,
        Err(_) => return true,
    };
    if env.ledger.timestamp < proposal.voting_end || proposal.status != ProposalStatus::Active {
        return true;
    }
    match proposal.votes_for.checked_add(proposal.votes_against) {
        Some(total) => total < total_supply / 10 || proposal.votes_for <= proposal.votes_against
            || env.iln_contract.is_some(),
        None => false,
    }
}

} // verus!

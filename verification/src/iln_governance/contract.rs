//! Proposals: making, voting, carrying out.

use crate::host::{Address, Hash32};
use crate::iln_governance::env::{Env, EnvView, HostCall, StorageKey};
use crate::iln_governance::errors::GovernanceError;
use crate::iln_governance::links::look_up;
use crate::iln_governance::proposal::{
    Event, GovernanceProposal, ProposalAction, ProposalStatus, VoteCast,
};
use vstd::prelude::*;

verus! {

/// Vote receipts only need to outlive the voting window.
pub const VOTE_RECEIPT_TTL_THRESHOLD_LEDGERS: u32 = 50_000;

pub const VOTE_RECEIPT_TTL_LEDGERS: u32 = 69_120;

/// Seconds for which a proposal can be voted on: three days.
pub const VOTING_PERIOD_SECONDS: u64 = 259_200;

pub struct GovContract;

/// The proposal that a request creates.
pub open spec fn new_proposal(
    s: EnvView,
    proposer: Address,
    action_type: ProposalAction,
    description_hash: Hash32,
    proposed_value: i128,
) -> GovernanceProposal {
    GovernanceProposal {
        id: (s.proposal_count() + 1) as u64,
        proposer,
        description_hash,
        action_type,
        proposed_value,
        status: ProposalStatus::Active,
        votes_for: 0,
        votes_against: 0,
        created_at: s.ledger.timestamp,
        voting_end: (s.ledger.timestamp + VOTING_PERIOD_SECONDS) as u64,
    }
}

/// The invocation after a proposal was made. What the proposer holds at that
/// moment is their own weight on it.
pub open spec fn proposed(s: EnvView, p: GovernanceProposal) -> EnvView {
    EnvView {
        proposal_count: Some(p.id),
        ..s.authorized(p.proposer).weight_recorded(
            p.id,
            p.proposer,
            s.balance(p.proposer),
        ).proposal_saved(p.id, p)
    }
}

/// Why a vote is refused before its weight counts, if it is.
pub open spec fn vote_gate(s: EnvView, voter: Address, id: u64) -> Option<GovernanceError> {
    if !s.has_proposal(id) {
        Some(GovernanceError::ProposalNotFound)
    } else if s.ledger.timestamp >= s.proposal(id).voting_end {
        Some(GovernanceError::VotingEnded)
    } else if s.proposal(id).status != ProposalStatus::Active {
        Some(GovernanceError::ProposalNotActive)
    } else if s.voted(id, voter) {
        Some(GovernanceError::AlreadyVoted)
    } else {
        None
    }
}

/// The weight of a vote: the voter's own and what was delegated to them.
pub open spec fn vote_weight(s: EnvView, voter: Address, id: u64) -> int {
    s.own_weight(id, voter) + s.delegated_to(voter)
}

/// Why a vote is refused, if it is.
pub open spec fn vote_refusal(s: EnvView, voter: Address, id: u64) -> Option<GovernanceError> {
    match vote_gate(s, voter, id) {
        Some(e) => Some(e),
        None => if vote_weight(s, voter, id) == 0 {
            Some(GovernanceError::NoVotingPower)
        } else {
            None
        },
    }
}

/// The invocation after the voter's own weight was put on record, where it was
/// not yet.
pub open spec fn weighed(s: EnvView, voter: Address, id: u64) -> EnvView {
    s.authorized(voter).weight_recorded(id, voter, s.own_weight(id, voter))
}

/// A proposal after a vote of the given weight.
pub open spec fn tallied(p: GovernanceProposal, support: bool, weight: int)
    -> GovernanceProposal {
    if support {
        GovernanceProposal { votes_for: (p.votes_for + weight) as i128, ..p }
    } else {
        GovernanceProposal { votes_against: (p.votes_against + weight) as i128, ..p }
    }
}

/// The invocation after a vote was cast.
pub open spec fn vote_cast(s: EnvView, voter: Address, id: u64, support: bool) -> EnvView {
    let weight = vote_weight(s, voter, id);
    let key = StorageKey::HasVoted(id, voter);
    let before = weighed(s, voter, id);
    EnvView { receipts: before.receipts.insert(key, true), ..before }.called(
        HostCall::ExtendTtl {
            key,
            threshold: VOTE_RECEIPT_TTL_THRESHOLD_LEDGERS,
            extend_to: VOTE_RECEIPT_TTL_LEDGERS,
        },
    ).proposal_saved(id, tallied(s.proposal(id), support, weight)).published(
        Event::VoteCast(VoteCast { proposal_id: id, voter, support, weight: weight as i128 }),
    )
}

/// Whether the weight of a vote, and the sum that it goes into, can be held.
pub open spec fn vote_fits(s: EnvView, voter: Address, id: u64, support: bool) -> bool {
    vote_gate(s, voter, id) is None ==> {
        let weight = vote_weight(s, voter, id);
        let sum = if support {
            s.proposal(id).votes_for
        } else {
            s.proposal(id).votes_against
        };
        &&& s.gov_token is Some
        &&& i128::MIN <= weight <= i128::MAX
        &&& weight != 0 ==> i128::MIN <= sum + weight <= i128::MAX
    }
}

/// A tenth of the supply, rounded towards zero.
pub open spec fn quorum(total_supply: int) -> int {
    if total_supply >= 0 {
        total_supply / 10
    } else {
        -((-total_supply) / 10)
    }
}

/// Why carrying a proposal out is refused before its votes count, if it is.
pub open spec fn execute_gate(s: EnvView, id: u64) -> Option<GovernanceError> {
    if !s.has_proposal(id) {
        Some(GovernanceError::ProposalNotFound)
    } else if s.ledger.timestamp < s.proposal(id).voting_end {
        Some(GovernanceError::VotingOngoing)
    } else if s.proposal(id).status != ProposalStatus::Active {
        Some(GovernanceError::AlreadyResolved)
    } else {
        None
    }
}

/// Why the votes do not carry a proposal, if they do not.
pub open spec fn votes_refusal(p: GovernanceProposal, total_supply: int) -> Option<
    GovernanceError,
> {
    if p.votes_for + p.votes_against < quorum(total_supply) {
        Some(GovernanceError::QuorumNotReached)
    } else if p.votes_for <= p.votes_against {
        Some(GovernanceError::ProposalRejected)
    } else {
        None
    }
}

/// The invocation after a proposal was given its final status.
pub open spec fn closed_as(s: EnvView, id: u64, status: ProposalStatus) -> EnvView {
    s.proposal_saved(id, GovernanceProposal { status, ..s.proposal(id) })
}

/// The invocation after a proposal was carried out.
pub open spec fn executed(s: EnvView, id: u64) -> EnvView {
    closed_as(
        s.called(
            HostCall::Invoke {
                contract: s.iln_contract->0,
                action: s.proposal(id).action_type,
            },
        ),
        id,
        ProposalStatus::Executed,
    )
}

/// Whether the votes can be added up, and there is a contract to act on, where
/// either is needed.
pub open spec fn execute_fits(s: EnvView, id: u64, total_supply: int) -> bool {
    execute_gate(s, id) is None ==> {
        let p = s.proposal(id);
        &&& i128::MIN <= p.votes_for + p.votes_against <= i128::MAX
        &&& votes_refusal(p, total_supply) is None ==> s.iln_contract is Some
    }
}

impl GovContract {
    /// Sets the contract up, once.
    pub fn initialize(env: &mut Env, iln_contract: Address, gov_token: Address) -> (r: Result<
        (),
        GovernanceError,
    >)
        ensures
            if old(env)@.iln_contract is Some {
                r == Err::<(), GovernanceError>(GovernanceError::AlreadyInitialized) && final(
                    env)@ == old(env)@
            } else {
                r == Ok::<(), GovernanceError>(()) && final(env)@ == (EnvView {
                    iln_contract: Some(iln_contract),
                    gov_token: Some(gov_token),
                    proposal_count: Some(0),
                    ..old(env)@
                })
            },
    {
        if env.iln_contract.is_some() {
            return Err(GovernanceError::AlreadyInitialized);
        }
        env.iln_contract = Some(iln_contract);
        env.gov_token = Some(gov_token);
        env.proposal_count = Some(0);
        Ok(())
    }

    /// Makes a proposal, open to votes for three days, and returns its number.
    pub fn create_proposal(
        env: &mut Env,
        proposer: Address,
        action_type: ProposalAction,
        description_hash: Hash32,
        proposed_value: i128,
    ) -> (r: Result<u64, GovernanceError>)
        requires
            old(env)@.gov_token is Some,
            old(env)@.proposal_count() < u64::MAX,
            old(env)@.ledger.timestamp + VOTING_PERIOD_SECONDS <= u64::MAX,
        ensures
            r == Ok::<u64, GovernanceError>((old(env)@.proposal_count() + 1) as u64),
            final(env)@ == proposed(
                old(env)@,
                new_proposal(old(env)@, proposer, action_type, description_hash, proposed_value),
            ),
    {
        env.require_auth(proposer);
        let count: u64 = env.proposal_count.unwrap_or(0);
        let id: u64 = count + 1;
        let now: u64 = env.ledger.timestamp;
        let voting_end: u64 = now + VOTING_PERIOD_SECONDS;
        let proposal: GovernanceProposal = GovernanceProposal {
            id,
            proposer,
            description_hash,
            action_type,
            proposed_value,
            status: ProposalStatus::Active,
            votes_for: 0,
            votes_against: 0,
            created_at: now,
            voting_end,
        };
        let proposer_weight: i128 = env.balance(&proposer);
        env.snapshots.set(StorageKey::VoteWeightSnapshot(id, proposer), proposer_weight);
        env.proposals.set(StorageKey::Proposal(id), proposal);
        env.proposal_count = Some(id);
        Ok(id)
    }

    /// Casts a vote. Its weight is the voter's own, as it was first put on record
    /// for this proposal, and what others have delegated to the voter.
    pub fn cast_vote(env: &mut Env, voter: Address, proposal_id: u64, support: bool) -> (r: Result<
        (),
        GovernanceError,
    >)
        requires
            vote_fits(old(env)@, voter, proposal_id, support),
        ensures
            match vote_refusal(old(env)@, voter, proposal_id) {
                Some(e) => r == Err::<(), GovernanceError>(e) && final(env)@ == (if vote_gate(
                    old(env)@,
                    voter,
                    proposal_id,
                ) is None {
                    weighed(old(env)@, voter, proposal_id)
                } else {
                    old(env)@.authorized(voter)
                }),
                None => r == Ok::<(), GovernanceError>(()) && final(env)@ == vote_cast(
                    old(env)@,
                    voter,
                    proposal_id,
                    support,
                ),
            },
    {
        env.require_auth(voter);
        let mut proposal: GovernanceProposal = match env.proposals.get(
            &StorageKey::Proposal(proposal_id),
        ) {
            Some(proposal) => *proposal,
            None => return Err(GovernanceError::ProposalNotFound),
        };
        let now: u64 = env.ledger.timestamp;
        if now >= proposal.voting_end {
            return Err(GovernanceError::VotingEnded);
        }
        if proposal.status != ProposalStatus::Active {
            return Err(GovernanceError::ProposalNotActive);
        }
        let voted_key: StorageKey = StorageKey::HasVoted(proposal_id, voter);
        if env.receipts.has(&voted_key) {
            return Err(GovernanceError::AlreadyVoted);
        }
        let snapshot_key: StorageKey = StorageKey::VoteWeightSnapshot(proposal_id, voter);
        let recorded: Option<i128> = match env.snapshots.get(&snapshot_key) {
            Some(weight) => Some(*weight),
            None => None,
        };
        let own_balance: i128 = match recorded {
            Some(weight) => weight,
            None => {
                let current: i128 = env.balance(&voter);
                env.snapshots.set(snapshot_key, current);
                current
            },
        };
        assert(env@.snapshots =~= weighed(old(env)@, voter, proposal_id).snapshots);
        let delegated: i128 = look_up(&env.links.delegated, &voter);
        let weight: i128 = own_balance + delegated;
        if weight == 0 {
            return Err(GovernanceError::NoVotingPower);
        }
        if support {
            proposal.votes_for = proposal.votes_for + weight;
        } else {
            proposal.votes_against = proposal.votes_against + weight;
        }
        env.receipts.set(voted_key, true);
        env.calls.push(
            HostCall::ExtendTtl {
                key: voted_key,
                threshold: VOTE_RECEIPT_TTL_THRESHOLD_LEDGERS,
                extend_to: VOTE_RECEIPT_TTL_LEDGERS,
            },
        );
        env.proposals.set(StorageKey::Proposal(proposal_id), proposal);
        env.publish_event(Event::VoteCast(VoteCast { proposal_id, voter, support, weight }));
        Ok(())
    }

    /// Carries a proposal out after the vote, if at least a tenth of the supply
    /// has voted and more of it for than against; closes it as rejected if not.
    pub fn execute_proposal(env: &mut Env, proposal_id: u64, total_supply: i128) -> (r: Result<
        (),
        GovernanceError,
    >)
        requires
            execute_fits(old(env)@, proposal_id, total_supply as int),
        ensures
            match execute_gate(old(env)@, proposal_id) {
                Some(e) => r == Err::<(), GovernanceError>(e) && final(env)@ == old(env)@,
                None => match votes_refusal(
                    old(env)@.proposal(proposal_id),
                    total_supply as int,
                ) {
                    Some(e) => r == Err::<(), GovernanceError>(e) && final(env)@ == closed_as(
                        old(env)@,
                        proposal_id,
                        ProposalStatus::Rejected,
                    ),
                    None => r == Ok::<(), GovernanceError>(()) && final(env)@ == executed(
                        old(env)@,
                        proposal_id,
                    ),
                },
            },
    {
        let mut proposal: GovernanceProposal = match env.proposals.get(
            &StorageKey::Proposal(proposal_id),
        ) {
            Some(proposal) => *proposal,
            None => return Err(GovernanceError::ProposalNotFound),
        };
        let now: u64 = env.ledger.timestamp;
        if now < proposal.voting_end {
            return Err(GovernanceError::VotingOngoing);
        }
        if proposal.status != ProposalStatus::Active {
            return Err(GovernanceError::AlreadyResolved);
        }
        let total_votes: i128 = proposal.votes_for + proposal.votes_against;
        let quorum: i128 = total_supply / 10;
        if total_votes < quorum {
            proposal.status = ProposalStatus::Rejected;
            env.proposals.set(StorageKey::Proposal(proposal_id), proposal);
            return Err(GovernanceError::QuorumNotReached);
        }
        if proposal.votes_for <= proposal.votes_against {
            proposal.status = ProposalStatus::Rejected;
            env.proposals.set(StorageKey::Proposal(proposal_id), proposal);
            return Err(GovernanceError::ProposalRejected);
        }
        let contract: Address = env.iln_contract.unwrap();
        env.calls.push(HostCall::Invoke { contract, action: proposal.action_type });
        proposal.status = ProposalStatus::Executed;
        env.proposals.set(StorageKey::Proposal(proposal_id), proposal);
        Ok(())
    }

    pub fn get_proposal(env: &Env, proposal_id: u64) -> (r: Result<
        GovernanceProposal,
        GovernanceError,
    >)
        ensures
            r == (if env@.has_proposal(proposal_id) {
                Ok::<GovernanceProposal, GovernanceError>(env@.proposal(proposal_id))
            } else {
                Err(GovernanceError::ProposalNotFound)
            }),
    {
        match env.proposals.get(&StorageKey::Proposal(proposal_id)) {
            Some(proposal) => Ok(*proposal),
            None => Err(GovernanceError::ProposalNotFound),
        }
    }

    pub fn has_voted(env: &Env, voter: Address, proposal_id: u64) -> (r: bool)
        ensures
            r == env@.voted(proposal_id, voter),
    {
        env.receipts.has(&StorageKey::HasVoted(proposal_id, voter))
    }
}

} // verus!

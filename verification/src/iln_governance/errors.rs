//! Reasons for which a request is refused.

use vstd::prelude::*;

verus! {

#[derive(Clone, Copy, Debug, PartialEq, Eq, Structural)]
pub enum GovernanceError {
    AlreadyInitialized,
    ProposalNotFound,
    VotingEnded,
    ProposalNotActive,
    NoVotingPower,
    AlreadyVoted,
    VotingOngoing,
    QuorumNotReached,
    ProposalRejected,
    AlreadyResolved,
    /// Delegating to oneself is not allowed.
    CannotDelegateToSelf,
    /// The delegation would close a cycle.
    DelegationCyclePrevented,
}

} // verus!

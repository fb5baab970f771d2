//! Who votes for whom.

use crate::host::Address;
use crate::iln_governance::chain::reaches;
use crate::iln_governance::contract::GovContract;
use crate::iln_governance::env::{Env, EnvView};
use crate::iln_governance::errors::GovernanceError;
use crate::iln_governance::proposal::{Event, VotesDelegated, VotesUndelegated};
use vstd::prelude::*;

verus! {

/// Why a delegation is refused, if it is.
pub open spec fn delegate_refusal(s: EnvView, delegator: Address, delegate: Address) -> Option<
    GovernanceError,
> {
    if delegator == delegate {
        Some(GovernanceError::CannotDelegateToSelf)
    } else if reaches(s.links.delegates, delegate, delegator) {
        Some(GovernanceError::DelegationCyclePrevented)
    } else {
        None
    }
}

/// The invocation after `delegator` delegated to `delegate`, in place of any earlier
/// delegation: what they hold, and all that comes to them, goes to where the
/// delegations of `delegate` end.
pub open spec fn delegated(s: EnvView, delegator: Address, delegate: Address) -> EnvView {
    EnvView {
        links: s.links.cut(delegator, s.balance(delegator)).tied(
            delegator,
            s.balance(delegator),
            delegate,
        ),
        ..s.authorized(delegator)
    }.published(Event::VotesDelegated(VotesDelegated { delegator, delegate }))
}

/// The invocation after a delegation, if there was one, was taken back: what the
/// delegator holds, and all that comes to them, comes back with them.
pub open spec fn undelegated(s: EnvView, delegator: Address) -> EnvView {
    EnvView {
        links: s.links.cut(delegator, s.balance(delegator)),
        ..s.authorized(delegator)
    }.published(Event::VotesUndelegated(VotesUndelegated { delegator }))
}

/// Whether a delegation, if there is one, can be taken back.
pub open spec fn withdrawal_fits(s: EnvView, delegator: Address) -> bool {
    &&& s.delegate_of(delegator) is Some ==> s.gov_token is Some
    &&& s.links.can_cut(delegator, s.balance(delegator))
}

/// Whether the tallies can be changed as a delegation asks, where it is accepted.
pub open spec fn delegation_fits(s: EnvView, delegator: Address, delegate: Address) -> bool {
    delegate_refusal(s, delegator, delegate) is None ==> {
        &&& s.gov_token is Some
        &&& s.links.can_cut(delegator, s.balance(delegator))
        &&& s.links.cut(delegator, s.balance(delegator)).can_tie(
            delegator,
            s.balance(delegator),
            delegate,
        )
    }
}

impl GovContract {
    /// Whom `addr` delegates to directly.
    pub fn get_delegate(env: &Env, addr: Address) -> (r: Option<Address>)
        ensures
            r == env@.delegate_of(addr),
    {
        env.links.delegate_of(&addr)
    }

    /// The weight that `addr` delegates of its own: what it holds of the governance
    /// token.
    fn get_own_balance_for_delegation(env: &Env, addr: &Address) -> (r: i128)
        requires
            env@.gov_token is Some,
        ensures
            r == env@.balance(*addr),
    {
        env.balance(addr)
    }

    /// Delegates the voting weight of `delegator` to `delegate`, in place of an
    /// earlier delegation. Delegating to oneself, or in a circle, is refused.
    pub fn delegate_votes(env: &mut Env, delegator: Address, delegate: Address) -> (r: Result<
        (),
        GovernanceError,
    >)
        requires
            delegation_fits(old(env)@, delegator, delegate),
        ensures
            match delegate_refusal(old(env)@, delegator, delegate) {
                Some(e) => r == Err::<(), GovernanceError>(e) && final(env)@ == old(
                    env)@.authorized(delegator),
                None => r == Ok::<(), GovernanceError>(()) && final(env)@ == delegated(
                    old(env)@,
                    delegator,
                    delegate,
                ),
            },
    {
        env.require_auth(delegator);
        if delegator == delegate {
            return Err(GovernanceError::CannotDelegateToSelf);
        }
        if env.links.leads_to(&delegate, &delegator) {
            return Err(GovernanceError::DelegationCyclePrevented);
        }
        let balance: i128 = Self::get_own_balance_for_delegation(env, &delegator);
        env.links.cut(&delegator, balance);
        env.links.tie(&delegator, balance, &delegate);
        env.publish_event(Event::VotesDelegated(VotesDelegated { delegator, delegate }));
        Ok(())
    }

    /// Takes a delegation back, if there is one.
    pub fn undelegate_votes(env: &mut Env, delegator: Address) -> (r: Result<(), GovernanceError>)
        requires
            withdrawal_fits(old(env)@, delegator),
        ensures
            r == Ok::<(), GovernanceError>(()),
            final(env)@ == undelegated(old(env)@, delegator),
    {
        env.require_auth(delegator);
        if env.links.delegate_of(&delegator).is_some() {
            let balance: i128 = Self::get_own_balance_for_delegation(env, &delegator);
            env.links.cut(&delegator, balance);
        }
        env.publish_event(Event::VotesUndelegated(VotesUndelegated { delegator }));
        Ok(())
    }
}

} // verus!

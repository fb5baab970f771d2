//! What each operation does, said of the operation itself: what it answers to which
//! request, and what it leaves behind.
//!
//! Every law here speaks of calls that were made, by their arguments, their results
//! and the invocation before and after.

use crate::host::{Address, Hash32, LedgerInfo};
use crate::iln_governance::chain::{lemma_reach_stays, on_chain, reaches};
use crate::iln_governance::contract::GovContract;
use crate::iln_governance::delegation::{delegation_fits, withdrawal_fits};
use crate::iln_governance::env::{Env, EnvView, HostCall, StorageKey};
use crate::iln_governance::errors::GovernanceError;
use crate::iln_governance::laws::{
    delegations_sound, law_delegated_weight_reaches_the_end, law_delegation_keeps_delegations_sound,
    law_delegations_change_one_link, law_links_stay_sound, law_sound_delegations_can_change,
    law_undelegation_keeps_delegations_sound,
};
use crate::iln_governance::limits::{
    can_delegate, can_execute, can_propose, can_undelegate, can_vote,
};
use crate::iln_governance::links::LinksView;
use crate::iln_governance::proposal::{
    Event, GovernanceProposal, ProposalAction, ProposalStatus, VoteCast, VotesDelegated,
    VotesUndelegated,
};
use crate::iln_governance::weights::{
    held_by_all, lemma_cut_sound, lemma_tied_sound, links_sound, supply_fits,
};
use vstd::prelude::*;

verus! {

/// The voting weight of an address on a proposal: what was put on record of their own,
/// or what they hold where nothing was, and what others have delegated to them.
pub open spec fn weight_on(s: EnvView, id: u64, who: Address) -> int {
    let own: int = if s.snapshots.contains_key(StorageKey::VoteWeightSnapshot(id, who)) {
        s.snapshots[StorageKey::VoteWeightSnapshot(id, who)] as int
    } else if s.balances.contains_key(who) {
        s.balances[who] as int
    } else {
        0
    };
    let delegated: int = if s.links.delegated.contains_key(who) {
        s.links.delegated[who] as int
    } else {
        0
    };
    own + delegated
}

/// A set-up contract cannot be set up again; a new one takes the two addresses and has
/// no proposal yet.
pub proof fn law_initialize(
    env: &mut Env,
    iln_contract: Address,
    gov_token: Address,
    r: Result<(), GovernanceError>,
)
    requires
        call_ensures(GovContract::initialize, (env, iln_contract, gov_token), r),
    ensures
        r == (if old(env)@.iln_contract is Some {
            Err::<(), GovernanceError>(GovernanceError::AlreadyInitialized)
        } else {
            Ok(())
        }),
        r is Err ==> final(env)@ == old(env)@,
        r is Ok ==> final(env)@ == (EnvView {
            iln_contract: Some(iln_contract),
            gov_token: Some(gov_token),
            proposal_count: Some(0),
            ..old(env)@
        }),
{
}

/// A proposal gets the next number, and is stored as it was asked for: active, without
/// votes, and open for three days from now. The proposer is asked, and what they hold is
/// put on record as their own weight.
pub proof fn law_create_proposal(
    env: &mut Env,
    proposer: Address,
    action_type: ProposalAction,
    description_hash: Hash32,
    proposed_value: i128,
    r: Result<u64, GovernanceError>,
)
    requires
        call_ensures(
            GovContract::create_proposal,
            (env, proposer, action_type, description_hash, proposed_value),
            r,
        ),
    ensures
        ({
            let s = old(env)@;
            let id = ((match s.proposal_count {
                Some(n) => n,
                None => 0,
            }) + 1) as u64;
            let held = if s.balances.contains_key(proposer) {
                s.balances[proposer]
            } else {
                0
            };
            &&& r == Ok::<u64, GovernanceError>(id)
            &&& final(env)@ == (EnvView {
                proposal_count: Some(id),
                proposals: s.proposals.insert(
                    StorageKey::Proposal(id),
                    GovernanceProposal {
                        id,
                        proposer,
                        description_hash,
                        action_type,
                        proposed_value,
                        status: ProposalStatus::Active,
                        votes_for: 0,
                        votes_against: 0,
                        created_at: s.ledger.timestamp,
                        voting_end: (s.ledger.timestamp + 3 * 24 * 60 * 60) as u64,
                    },
                ),
                snapshots: s.snapshots.insert(
                    StorageKey::VoteWeightSnapshot(id, proposer),
                    held,
                ),
                calls: s.calls.push(HostCall::RequireAuth(proposer)),
                ..s
            })
        }),
{
}

/// A vote is taken while the proposal is active and its time has not run out, once from
/// every voter, and from nobody without weight. It raises the side that it is cast for
/// by exactly the weight of the voter, the other side and the rest of the proposal stay
/// as they were, and it is kept, announced and never asked for twice.
pub proof fn law_cast_vote(
    env: &mut Env,
    voter: Address,
    proposal_id: u64,
    support: bool,
    r: Result<(), GovernanceError>,
)
    requires
        call_ensures(GovContract::cast_vote, (env, voter, proposal_id, support), r),
    ensures
        ({
            let s = old(env)@;
            let key = StorageKey::Proposal(proposal_id);
            let p = s.proposals[key];
            let weight = weight_on(s, proposal_id, voter);
            let record = StorageKey::VoteWeightSnapshot(proposal_id, voter);
            let receipt = StorageKey::HasVoted(proposal_id, voter);
            let gate = if !s.proposals.contains_key(key) {
                Some(GovernanceError::ProposalNotFound)
            } else if s.ledger.timestamp >= p.voting_end {
                Some(GovernanceError::VotingEnded)
            } else if p.status != ProposalStatus::Active {
                Some(GovernanceError::ProposalNotActive)
            } else if s.receipts.contains_key(receipt) {
                Some(GovernanceError::AlreadyVoted)
            } else {
                None
            };
            let weighed = s.snapshots.insert(
                record,
                if s.snapshots.contains_key(record) {
                    s.snapshots[record]
                } else if s.balances.contains_key(voter) {
                    s.balances[voter]
                } else {
                    0
                },
            );
            match gate {
                Some(e) => {
                    &&& r == Err::<(), GovernanceError>(e)
                    &&& final(env)@ == (EnvView {
                        calls: s.calls.push(HostCall::RequireAuth(voter)),
                        ..s
                    })
                },
                None => if weight == 0 {
                    &&& r == Err::<(), GovernanceError>(GovernanceError::NoVotingPower)
                    &&& final(env)@ == (EnvView {
                        snapshots: weighed,
                        calls: s.calls.push(HostCall::RequireAuth(voter)),
                        ..s
                    })
                } else {
                    &&& r == Ok::<(), GovernanceError>(())
                    &&& final(env)@ == (EnvView {
                        snapshots: weighed,
                        receipts: s.receipts.insert(receipt, true),
                        proposals: s.proposals.insert(
                            key,
                            GovernanceProposal {
                                votes_for: if support {
                                    (p.votes_for + weight) as i128
                                } else {
                                    p.votes_for
                                },
                                votes_against: if support {
                                    p.votes_against
                                } else {
                                    (p.votes_against + weight) as i128
                                },
                                ..p
                            },
                        ),
                        calls: s.calls + seq![
                            HostCall::RequireAuth(voter),
                            HostCall::ExtendTtl {
                                key: receipt,
                                threshold: 50_000,
                                extend_to: 69_120,
                            },
                            HostCall::Publish(
                                Event::VoteCast(
                                    VoteCast {
                                        proposal_id,
                                        voter,
                                        support,
                                        weight: weight as i128,
                                    },
                                ),
                            ),
                        ],
                        ..s
                    })
                },
            }
        }),
{
}

/// Votes of different voters on the same side add up, for support and for opposition
/// alike: two of them leave that side higher by the sum of the two weights, and the
/// other as it was.
pub proof fn law_votes_on_a_side_add_up(
    first: &mut Env,
    second: &mut Env,
    a: Address,
    b: Address,
    proposal_id: u64,
    support: bool,
    ra: Result<(), GovernanceError>,
    rb: Result<(), GovernanceError>,
)
    requires
        call_ensures(GovContract::cast_vote, (first, a, proposal_id, support), ra),
        call_ensures(GovContract::cast_vote, (second, b, proposal_id, support), rb),
        ra is Ok,
        rb is Ok,
        old(second)@ == final(first)@,
        ({
            let p = old(first)@.proposals[StorageKey::Proposal(proposal_id)];
            let before = if support {
                p.votes_for
            } else {
                p.votes_against
            };
            let wa = weight_on(old(first)@, proposal_id, a);
            let wb = weight_on(old(first)@, proposal_id, b);
            &&& i128::MIN <= before + wa <= i128::MAX
            &&& i128::MIN <= before + wa + wb <= i128::MAX
        }),
    ensures
        a != b,
        ({
            let p = old(first)@.proposals[StorageKey::Proposal(proposal_id)];
            let q = final(second)@.proposals[StorageKey::Proposal(proposal_id)];
            let sum = weight_on(old(first)@, proposal_id, a) + weight_on(
                old(first)@,
                proposal_id,
                b,
            );
            if support {
                q.votes_for == p.votes_for + sum && q.votes_against == p.votes_against
            } else {
                q.votes_against == p.votes_against + sum && q.votes_for == p.votes_for
            }
        }),
{
    law_cast_vote(first, a, proposal_id, support, ra);
    law_cast_vote(second, b, proposal_id, support, rb);
}

/// A vote for and a vote against count on opposite sides, each with its own weight,
/// whichever comes first.
pub proof fn law_opposite_votes_count_apart(
    first: &mut Env,
    second: &mut Env,
    a: Address,
    b: Address,
    proposal_id: u64,
    support: bool,
    ra: Result<(), GovernanceError>,
    rb: Result<(), GovernanceError>,
)
    requires
        call_ensures(GovContract::cast_vote, (first, a, proposal_id, support), ra),
        call_ensures(GovContract::cast_vote, (second, b, proposal_id, !support), rb),
        ra is Ok,
        rb is Ok,
        old(second)@ == final(first)@,
        ({
            let p = old(first)@.proposals[StorageKey::Proposal(proposal_id)];
            let (wa, wb) = (
                weight_on(old(first)@, proposal_id, a),
                weight_on(old(first)@, proposal_id, b),
            );
            let (pro, con) = if support {
                (wa, wb)
            } else {
                (wb, wa)
            };
            &&& i128::MIN <= p.votes_for + pro <= i128::MAX
            &&& i128::MIN <= p.votes_against + con <= i128::MAX
        }),
    ensures
        ({
            let p = old(first)@.proposals[StorageKey::Proposal(proposal_id)];
            let q = final(second)@.proposals[StorageKey::Proposal(proposal_id)];
            let (wa, wb) = (
                weight_on(old(first)@, proposal_id, a),
                weight_on(old(first)@, proposal_id, b),
            );
            q.votes_for == p.votes_for + (if support {
                wa
            } else {
                wb
            }) && q.votes_against == p.votes_against + (if support {
                wb
            } else {
                wa
            })
        }),
{
    law_cast_vote(first, a, proposal_id, support, ra);
    law_cast_vote(second, b, proposal_id, !support, rb);
}

/// Carrying out a proposal is refused while it can be voted on and once it was resolved.
/// It carries if at least a tenth of the supply has voted and more of it for than
/// against: then exactly one host call is made, which has the configured invoice
/// contract do what the stored proposal names, and the proposal is closed as carried
/// out. If it does not carry, it is closed as rejected and no host call is made.
pub proof fn law_execute_proposal(
    env: &mut Env,
    proposal_id: u64,
    total_supply: i128,
    r: Result<(), GovernanceError>,
)
    requires
        call_ensures(GovContract::execute_proposal, (env, proposal_id, total_supply), r),
    ensures
        ({
            let s = old(env)@;
            let key = StorageKey::Proposal(proposal_id);
            let p = s.proposals[key];
            let gate = if !s.proposals.contains_key(key) {
                Some(GovernanceError::ProposalNotFound)
            } else if s.ledger.timestamp < p.voting_end {
                Some(GovernanceError::VotingOngoing)
            } else if p.status != ProposalStatus::Active {
                Some(GovernanceError::AlreadyResolved)
            } else {
                None
            };
            let quorum = if total_supply >= 0 {
                total_supply as int / 10
            } else {
                -(-total_supply / 10)
            };
            let verdict = if p.votes_for + p.votes_against < quorum {
                Some(GovernanceError::QuorumNotReached)
            } else if p.votes_for <= p.votes_against {
                Some(GovernanceError::ProposalRejected)
            } else {
                None
            };
            match gate {
                Some(e) => r == Err::<(), GovernanceError>(e) && final(env)@ == s,
                None => match verdict {
                    Some(e) => {
                        &&& r == Err::<(), GovernanceError>(e)
                        &&& final(env)@ == (EnvView {
                            proposals: s.proposals.insert(
                                key,
                                GovernanceProposal { status: ProposalStatus::Rejected, ..p },
                            ),
                            ..s
                        })
                    },
                    None => {
                        &&& r == Ok::<(), GovernanceError>(())
                        &&& final(env)@ == (EnvView {
                            proposals: s.proposals.insert(
                                key,
                                GovernanceProposal { status: ProposalStatus::Executed, ..p },
                            ),
                            calls: s.calls.push(
                                HostCall::Invoke {
                                    contract: s.iln_contract->0,
                                    action: p.action_type,
                                },
                            ),
                            ..s
                        })
                    },
                },
            }
        }),
{
}

/// A proposal that is carried out does what it names, for each of the four actions,
/// under the entry point that the action has, and nothing beside it.
pub proof fn law_proposals_do_what_they_name(
    env: &mut Env,
    proposal_id: u64,
    total_supply: i128,
    r: Result<(), GovernanceError>,
    name: &'static str,
)
    requires
        call_ensures(GovContract::execute_proposal, (env, proposal_id, total_supply), r),
        r is Ok,
        call_ensures(
            ProposalAction::entry_point,
            (old(env)@.proposals[StorageKey::Proposal(proposal_id)].action_type,),
            name,
        ),
    ensures
        ({
            let s = old(env)@;
            let action = s.proposals[StorageKey::Proposal(proposal_id)].action_type;
            let calls = final(env)@.calls;
            &&& calls.len() == s.calls.len() + 1
            &&& calls.drop_last() == s.calls
            &&& calls.last() matches HostCall::Invoke { contract, action: done } && contract
                == s.iln_contract->0 && match action {
                ProposalAction::UpdateFeeRate(rate) => done == ProposalAction::UpdateFeeRate(rate)
                    && name@ == "update_fee_rate"@,
                ProposalAction::AddToken(token) => done == ProposalAction::AddToken(token) && name@
                    == "add_token"@,
                ProposalAction::RemoveToken(token) => done == ProposalAction::RemoveToken(token)
                    && name@ == "remove_token"@,
                ProposalAction::UpdateMaxDiscountRate(rate) => done
                    == ProposalAction::UpdateMaxDiscountRate(rate) && name@
                    == "update_max_discount"@,
            }
        }),
{
}

/// What can be read: a proposal as it is stored, whether somebody has voted on it, and
/// whom somebody delegates to directly.
pub proof fn law_what_can_be_read(
    env: &Env,
    id: u64,
    who: Address,
    proposal: Result<GovernanceProposal, GovernanceError>,
    voted: bool,
    delegate: Option<Address>,
)
    requires
        call_ensures(GovContract::get_proposal, (env, id), proposal),
        call_ensures(GovContract::has_voted, (env, who, id), voted),
        call_ensures(GovContract::get_delegate, (env, who), delegate),
    ensures
        proposal == (if env@.proposals.contains_key(StorageKey::Proposal(id)) {
            Ok::<GovernanceProposal, GovernanceError>(env@.proposals[StorageKey::Proposal(id)])
        } else {
            Err(GovernanceError::ProposalNotFound)
        }),
        voted <==> env@.receipts.contains_key(StorageKey::HasVoted(id, who)),
        delegate == (if env@.links.delegates.contains_key(who) {
            Some(env@.links.delegates[who])
        } else {
            None
        }),
{
}

/// Delegating asks the delegator. It is refused to oneself, and where delegations lead
/// from the delegate back to the delegator; a refusal changes nothing else. Otherwise
/// exactly the link of the delegator changes, and the delegation is announced.
pub proof fn law_delegate_votes(
    env: &mut Env,
    delegator: Address,
    delegate: Address,
    r: Result<(), GovernanceError>,
)
    requires
        call_ensures(GovContract::delegate_votes, (env, delegator, delegate), r),
    ensures
        ({
            let s = old(env)@;
            let t = final(env)@;
            if delegator == delegate || reaches(s.links.delegates, delegate, delegator) {
                &&& r == Err::<(), GovernanceError>(
                    if delegator == delegate {
                        GovernanceError::CannotDelegateToSelf
                    } else {
                        GovernanceError::DelegationCyclePrevented
                    },
                )
                &&& t == (EnvView { calls: s.calls.push(HostCall::RequireAuth(delegator)), ..s })
            } else {
                &&& r == Ok::<(), GovernanceError>(())
                &&& t.links.delegates == s.links.delegates.insert(delegator, delegate)
                &&& t == (EnvView {
                    links: t.links,
                    calls: s.calls + seq![
                        HostCall::RequireAuth(delegator),
                        HostCall::Publish(
                            Event::VotesDelegated(VotesDelegated { delegator, delegate }),
                        ),
                    ],
                    ..s
                })
            }
        }),
{
    law_delegations_change_one_link(old(env)@, delegator, delegate);
}

/// Taking a delegation back asks the delegator, always succeeds, takes out exactly the
/// link of the delegator, if there is one, and is announced.
pub proof fn law_undelegate_votes(
    env: &mut Env,
    delegator: Address,
    r: Result<(), GovernanceError>,
)
    requires
        call_ensures(GovContract::undelegate_votes, (env, delegator), r),
    ensures
        ({
            let s = old(env)@;
            let t = final(env)@;
            &&& r == Ok::<(), GovernanceError>(())
            &&& t.links.delegates == s.links.delegates.remove(delegator)
            &&& t == (EnvView {
                links: t.links,
                calls: s.calls + seq![
                    HostCall::RequireAuth(delegator),
                    HostCall::Publish(Event::VotesUndelegated(VotesUndelegated { delegator })),
                ],
                ..s
            })
            &&& !s.links.delegates.contains_key(delegator) ==> t.links == s.links
        }),
{
    law_delegations_change_one_link(old(env)@, delegator, delegator);
}

/// The weight that comes to an address along the delegations: what stays with one who
/// delegates to nobody, what is passed on by one who does.
pub open spec fn comes_to(s: EnvView, who: Address) -> int {
    let tallies = if s.links.delegates.contains_key(who) {
        s.links.passed_on
    } else {
        s.links.delegated
    };
    if tallies.contains_key(who) {
        tallies[who] as int
    } else {
        0
    }
}

/// With sound delegations, a delegation that is accepted puts the weight where the links
/// lead: whoever delegates to nobody votes with the sum of what all those hold whose
/// chains of delegations come to them, and whoever delegates votes with nothing of
/// others.
pub proof fn law_delegated_votes_follow_the_links(
    env: &mut Env,
    delegator: Address,
    delegate: Address,
    r: Result<(), GovernanceError>,
    w: Address,
)
    requires
        call_ensures(GovContract::delegate_votes, (env, delegator, delegate), r),
        r is Ok,
        delegations_sound(old(env)@),
        supply_fits(old(env)@.balances),
        old(env)@.gov_token is Some,
    ensures
        delegations_sound(final(env)@),
        ({
            let t = final(env)@;
            let tally = if t.links.delegated.contains_key(w) {
                t.links.delegated[w] as int
            } else {
                0
            };
            tally == (if t.links.delegates.contains_key(w) {
                0
            } else {
                held_by_all(
                    old(env)@.balances,
                    Set::new(|a: Address| reaches(t.links.delegates, a, w)),
                )
            })
        }),
{
    let s = old(env)@;
    let t = final(env)@;
    law_sound_delegations_can_change(s, delegator, delegate);
    law_delegation_keeps_delegations_sound(s, delegator, delegate);
    law_delegated_weight_reaches_the_end(t, w, 0);
}

/// The same of a delegation that is taken back.
pub proof fn law_undelegated_votes_follow_the_links(
    env: &mut Env,
    delegator: Address,
    r: Result<(), GovernanceError>,
    w: Address,
)
    requires
        call_ensures(GovContract::undelegate_votes, (env, delegator), r),
        delegations_sound(old(env)@),
        old(env)@.gov_token is Some,
    ensures
        delegations_sound(final(env)@),
        ({
            let t = final(env)@;
            let tally = if t.links.delegated.contains_key(w) {
                t.links.delegated[w] as int
            } else {
                0
            };
            tally == (if t.links.delegates.contains_key(w) {
                0
            } else {
                held_by_all(
                    old(env)@.balances,
                    Set::new(|a: Address| reaches(t.links.delegates, a, w)),
                )
            })
        }),
{
    let s = old(env)@;
    law_sound_delegations_can_change(s, delegator, delegator);
    law_undelegation_keeps_delegations_sound(s, delegator);
    law_delegated_weight_reaches_the_end(final(env)@, w, 0);
}

/// Whatever has happened to the balances since, a delegation moves what the delegator
/// holds now, together with what comes to them: everyone on the old chain loses as much,
/// as far as they have it, and everyone on the new chain gains as much.
pub proof fn law_delegation_moves_what_is_held_now(
    env: &mut Env,
    delegator: Address,
    delegate: Address,
    r: Result<(), GovernanceError>,
    w: Address,
)
    requires
        call_ensures(GovContract::delegate_votes, (env, delegator, delegate), r),
        r is Ok,
        links_sound(old(env)@.links),
        delegation_fits(old(env)@, delegator, delegate),
        !old(env)@.balances.contains_key(delegator) || old(env)@.balances[delegator] >= 0,
    ensures
        links_sound(final(env)@.links),
        ({
            let s = old(env)@;
            let brought = comes_to(s, delegator) + (if s.balances.contains_key(delegator) {
                s.balances[delegator] as int
            } else {
                0
            });
            let loose = if !reaches(s.links.delegates, delegator, w) {
                comes_to(s, w)
            } else if comes_to(s, w) > brought {
                comes_to(s, w) - brought
            } else {
                0
            };
            comes_to(final(env)@, w) == (if on_chain(
                s.links.delegates.remove(delegator),
                delegate,
                w,
            ) {
                loose + brought
            } else {
                loose
            })
        }),
{
    let s = old(env)@;
    let t = final(env)@;
    let balance = s.balance(delegator);
    let loose = s.links.cut(delegator, balance);
    law_links_stay_sound(s, delegator, delegate);
    lemma_cut_sound(s.links, delegator, balance);
    if reaches(loose.delegates, delegate, delegator) {
        lemma_reach_stays(loose.delegates, s.links.delegates, delegate, delegator);
    }
    lemma_tied_sound(loose, delegator, balance, delegate);
    assert(loose.incoming(w) >= 0);
    assert(s.links.incoming(delegator) >= 0);
    assert(!reaches(s.links.delegates, delegator, delegator));
    assert(loose.incoming(delegator) == s.links.incoming(delegator));
    assert(t.links.incoming(w) == comes_to(t, w));
    assert(s.links.incoming(w) == comes_to(s, w));
}

/// Taking a delegation back moves the same the other way: everyone on the chain loses
/// what the delegator holds now and what comes to them, as far as they have it.
pub proof fn law_undelegation_takes_what_is_held_now(
    env: &mut Env,
    delegator: Address,
    r: Result<(), GovernanceError>,
    w: Address,
)
    requires
        call_ensures(GovContract::undelegate_votes, (env, delegator), r),
        links_sound(old(env)@.links),
        withdrawal_fits(old(env)@, delegator),
    ensures
        links_sound(final(env)@.links),
        ({
            let s = old(env)@;
            let brought = comes_to(s, delegator) + (if s.balances.contains_key(delegator) {
                s.balances[delegator] as int
            } else {
                0
            });
            comes_to(final(env)@, w) == (if !reaches(s.links.delegates, delegator, w) {
                comes_to(s, w)
            } else if comes_to(s, w) > brought {
                comes_to(s, w) - brought
            } else {
                0
            })
        }),
{
    let s = old(env)@;
    let t = final(env)@;
    law_links_stay_sound(s, delegator, delegator);
    lemma_cut_sound(s.links, delegator, s.balance(delegator));
    assert(t.links.incoming(w) == comes_to(t, w));
    assert(s.links.incoming(w) == comes_to(s, w));
}

/// A set-up contract takes any vote whose weight, and whose sum, can be held, and
/// resolves any proposal whose votes can be added up.
pub proof fn law_votes_can_be_cast_and_counted(
    env: &Env,
    voter: &Address,
    id: u64,
    support: bool,
    total_supply: i128,
    vote: bool,
    resolve: bool,
)
    requires
        call_ensures(can_vote, (env, voter, id, support), vote),
        call_ensures(can_execute, (env, id, total_supply), resolve),
        env@.gov_token is Some,
        env@.iln_contract is Some,
        ({
            let p = env@.proposals[StorageKey::Proposal(id)];
            let weight = weight_on(env@, id, *voter);
            &&& i128::MIN <= weight <= i128::MAX
            &&& i128::MIN <= p.votes_for + weight <= i128::MAX
            &&& i128::MIN <= p.votes_against + weight <= i128::MAX
            &&& i128::MIN <= p.votes_for + p.votes_against <= i128::MAX
        }),
    ensures
        vote,
        resolve,
{
}

/// A set-up contract takes proposals as long as there are numbers and the clock has room
/// for three days. With sound delegations, a delegation can always be taken back, and
/// made as long as the supply can be held.
pub proof fn law_proposals_and_delegations_can_be_made(
    env: &Env,
    delegator: &Address,
    delegate: &Address,
    propose: bool,
    undo: bool,
    tie: bool,
)
    requires
        call_ensures(can_propose, (env,), propose),
        call_ensures(can_undelegate, (env, delegator), undo),
        call_ensures(can_delegate, (env, delegator, delegate), tie),
        env@.gov_token is Some,
        env@.proposal_count is None || env@.proposal_count->0 < u64::MAX,
        env@.ledger.timestamp + 3 * 24 * 60 * 60 <= u64::MAX,
        delegations_sound(env@),
        supply_fits(env@.balances),
    ensures
        propose,
        undo,
        tie,
{
    law_sound_delegations_can_change(env@, *delegator, *delegate);
}

/// A freshly deployed contract is not set up: it has no proposal, no vote, no delegation
/// and no balance, and has asked nothing of its host.
pub proof fn law_new_contracts_are_empty(ledger: LedgerInfo, env: Env)
    requires
        call_ensures(Env::new, (ledger,), env),
    ensures
        env@ == (EnvView {
            ledger,
            balances: Map::empty(),
            iln_contract: None,
            gov_token: None,
            proposal_count: None,
            proposals: Map::empty(),
            snapshots: Map::empty(),
            links: LinksView {
                delegates: Map::empty(),
                delegated: Map::empty(),
                passed_on: Map::empty(),
            },
            receipts: Map::empty(),
            calls: Seq::empty(),
        }),
{
}

/// What somebody holds is read as it is; nothing where nothing is known. What is asked of
/// the host is asked last, and changes nothing else.
pub proof fn law_the_host_is_asked_in_order(
    env: &Env,
    who: &Address,
    held: i128,
    a: &mut Env,
    p: &mut Env,
    event: Event,
)
    requires
        call_ensures(Env::balance, (env, who), held),
        call_ensures(Env::require_auth, (a, *who), ()),
        call_ensures(Env::publish_event, (p, event), ()),
    ensures
        held == (if env@.balances.contains_key(*who) {
            env@.balances[*who]
        } else {
            0
        }),
        final(a)@ == (EnvView {
            calls: old(a)@.calls.push(HostCall::RequireAuth(*who)),
            ..old(a)@
        }),
        final(p)@ == (EnvView { calls: old(p)@.calls.push(HostCall::Publish(event)), ..old(p)@ }),
{
}

} // verus!

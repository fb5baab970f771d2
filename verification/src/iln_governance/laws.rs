//! What holds of voting and delegation as a whole.

use crate::host::Address;
use crate::iln_governance::chain::{
    acyclic, lemma_linked_acyclic, lemma_one_end, lemma_reach_in_linked, lemma_reach_stays,
    lemma_reaches_by_first_link, lemma_unlinked, linked, on_chain, reaches, supporters,
};
use crate::iln_governance::contract::{
    closed_as, execute_gate, executed, proposed, vote_cast, vote_gate, vote_refusal, vote_weight,
    votes_refusal,
};
use crate::iln_governance::delegation::{
    delegate_refusal, delegated, delegation_fits, undelegated, withdrawal_fits,
};
use crate::iln_governance::env::{EnvView, StorageKey};
use crate::iln_governance::errors::GovernanceError;
use crate::iln_governance::links::{lemma_flow_keeps_delegates, LinksView};
use crate::iln_governance::proposal::{GovernanceProposal, ProposalStatus};
use crate::iln_governance::weights::{
    due, held_by_all, lemma_can_cut, lemma_can_tie, lemma_cut_sound, lemma_cut_true,
    lemma_due_in_linked, lemma_tied_and_cut, lemma_tied_sound, lemma_tied_true, links_sound,
    links_true, no_negative_balance, supply_fits,
};
use vstd::prelude::*;

verus! {

// ----------------------------------------------------------------
// Proposals and votes
// ----------------------------------------------------------------

/// Every stored proposal has its own number, which was given out.
pub open spec fn proposals_sound(s: EnvView) -> bool {
    forall|id: u64| #[trigger]
        s.has_proposal(id) ==> 1 <= id <= s.proposal_count() && s.proposal(id).id == id
}

/// A new proposal gets a new number, and the others stay as they are.
pub proof fn law_proposals_are_numbered(s: EnvView, p: GovernanceProposal)
    requires
        proposals_sound(s),
        s.proposal_count() < u64::MAX,
        p.id == s.proposal_count() + 1,
    ensures
        proposals_sound(proposed(s, p)),
        !s.has_proposal(p.id),
        proposed(s, p).proposal(p.id) == p,
        proposed(s, p).proposal_count() == s.proposal_count() + 1,
        forall|id: u64| #[trigger]
            s.has_proposal(id) ==> proposed(s, p).has_proposal(id) && proposed(s, p).proposal(id)
                == s.proposal(id),
{
    let t = proposed(s, p);
    assert(!s.has_proposal(p.id));
    assert forall|id: u64| #[trigger] t.has_proposal(id) implies 1 <= id <= t.proposal_count()
        && t.proposal(id).id == id by {
        if id != p.id {
            assert(s.has_proposal(id));
        }
    }
}

/// Nobody votes twice on a proposal: a second vote is refused, whichever way it
/// goes.
pub proof fn law_no_double_vote(s: EnvView, voter: Address, id: u64, support: bool)
    requires
        vote_refusal(s, voter, id) is None,
    ensures
        vote_cast(s, voter, id, support).voted(id, voter),
        vote_refusal(vote_cast(s, voter, id, support), voter, id) == Some(
            GovernanceError::AlreadyVoted,
        ),
{
}

/// The votes of different voters add up, and no vote changes the weight of
/// another.
pub proof fn law_votes_accumulate(s: EnvView, a: Address, b: Address, id: u64)
    requires
        a != b,
        vote_refusal(s, a, id) is None,
        vote_refusal(s, b, id) is None,
        i128::MIN <= vote_weight(s, a, id) <= i128::MAX,
        i128::MIN <= s.proposal(id).votes_for + vote_weight(s, a, id) <= i128::MAX,
        i128::MIN <= s.proposal(id).votes_for + vote_weight(s, a, id) + vote_weight(s, b, id)
            <= i128::MAX,
    ensures
        ({
            let t = vote_cast(s, a, id, true);
            let u = vote_cast(t, b, id, true);
            &&& vote_refusal(t, b, id) is None
            &&& vote_weight(t, b, id) == vote_weight(s, b, id)
            &&& u.proposal(id).votes_for == s.proposal(id).votes_for + vote_weight(s, a, id)
                + vote_weight(s, b, id)
            &&& u.proposal(id).votes_against == s.proposal(id).votes_against
        }),
{
}

/// A vote changes one side of one proposal, and nothing else of any proposal.
pub proof fn law_a_vote_counts_once(s: EnvView, voter: Address, id: u64, support: bool, other: u64)
    requires
        vote_refusal(s, voter, id) is None,
        other != id,
    ensures
        vote_cast(s, voter, id, support).has_proposal(other) == s.has_proposal(other),
        s.has_proposal(other) ==> vote_cast(s, voter, id, support).proposal(other) == s.proposal(
            other,
        ),
        support ==> vote_cast(s, voter, id, support).proposal(id).votes_against == s.proposal(
            id,
        ).votes_against,
        !support ==> vote_cast(s, voter, id, support).proposal(id).votes_for == s.proposal(
            id,
        ).votes_for,
{
}

/// Once the own weight of a voter is on record, what they hold later makes no
/// difference to it.
pub proof fn law_recorded_weight_is_fixed(
    s: EnvView,
    voter: Address,
    id: u64,
    balances: Map<Address, i128>,
)
    requires
        s.snapshots.contains_key(StorageKey::VoteWeightSnapshot(id, voter)),
    ensures
        (EnvView { balances, ..s }).own_weight(id, voter) == s.own_weight(id, voter),
        vote_weight(EnvView { balances, ..s }, voter, id) == vote_weight(s, voter, id),
{
}

/// The weight of the proposer is on record from the start.
pub proof fn law_proposer_weight_is_recorded(s: EnvView, p: GovernanceProposal)
    ensures
        proposed(s, p).snapshots.contains_key(StorageKey::VoteWeightSnapshot(p.id, p.proposer)),
        proposed(s, p).own_weight(p.id, p.proposer) == s.balance(p.proposer),
{
}

/// A proposal is resolved once: after it was carried out or rejected, carrying it
/// out is refused.
pub proof fn law_proposals_are_resolved_once(s: EnvView, id: u64)
    requires
        execute_gate(s, id) is None,
    ensures
        execute_gate(executed(s, id), id) == Some(GovernanceError::AlreadyResolved),
        execute_gate(closed_as(s, id, ProposalStatus::Rejected), id) == Some(
            GovernanceError::AlreadyResolved,
        ),
{
}

/// A proposal is never open to votes and ready to be carried out at once.
pub proof fn law_voting_ends_before_execution(s: EnvView, voter: Address, id: u64)
    ensures
        vote_gate(s, voter, id) is Some || execute_gate(s, id) is Some,
{
}

/// A proposal carries exactly if at least a tenth of the supply has voted, and
/// more of it for than against.
pub proof fn law_quorum_and_majority_carry(p: GovernanceProposal, total_supply: int)
    requires
        total_supply >= 0,
    ensures
        votes_refusal(p, total_supply) is None <==> p.votes_for + p.votes_against >= total_supply
            / 10 && p.votes_for > p.votes_against,
{
}

// ----------------------------------------------------------------
// Delegation
// ----------------------------------------------------------------

/// What a delegation, and taking it back, does to the links: exactly one is made,
/// exactly one is taken away.
pub proof fn law_delegations_change_one_link(s: EnvView, delegator: Address, delegate: Address)
    ensures
        delegated(s, delegator, delegate).links.delegates == s.links.delegates.insert(
            delegator,
            delegate,
        ),
        undelegated(s, delegator).links.delegates == s.links.delegates.remove(delegator),
{
    let loose = s.links.cut(delegator, s.balance(delegator));
    if s.links.delegates.contains_key(delegator) {
        lemma_flow_keeps_delegates(
            s.links,
            s.links.delegates[delegator],
            -s.links.brought_by(delegator, s.balance(delegator)),
            s.links.count(),
        );
    }
    assert(loose.delegates =~= s.links.delegates.remove(delegator));
    lemma_flow_keeps_delegates(
        loose,
        delegate,
        loose.brought_by(delegator, s.balance(delegator)),
        loose.count(),
    );
    assert(loose.delegates.insert(delegator, delegate) =~= s.links.delegates.insert(
        delegator,
        delegate,
    ));
}

/// A delegation that is accepted closes no cycle, however long the chains are, and
/// neither does taking one back: from no address do delegations ever lead back to
/// it.
pub proof fn law_delegation_never_closes_a_cycle(s: EnvView, delegator: Address, delegate: Address)
    requires
        s.links.delegates.dom().finite(),
        acyclic(s.links.delegates),
    ensures
        delegate_refusal(s, delegator, delegate) is None ==> acyclic(
            delegated(s, delegator, delegate).links.delegates,
        ),
        acyclic(undelegated(s, delegator).links.delegates),
{
    let h = s.links.delegates;
    let g = h.remove(delegator);
    law_delegations_change_one_link(s, delegator, delegate);
    assert forall|a: Address| !#[trigger] reaches(g, a, a) by {
        if reaches(g, a, a) {
            lemma_reach_stays(g, h, a, a);
        }
    }
    if delegate_refusal(s, delegator, delegate) is None {
        if reaches(g, delegate, delegator) {
            lemma_reach_stays(g, h, delegate, delegator);
        }
        assert(h.insert(delegator, delegate) =~= g.insert(delegator, delegate));
        lemma_linked_acyclic(g, h.insert(delegator, delegate), delegator, delegate);
    }
}

/// Delegations, accepted and taken back, keep the links sound whatever has happened to
/// the balances: no circle, no negative tally, and no tally for whoever delegates.
pub proof fn law_links_stay_sound(s: EnvView, delegator: Address, delegate: Address)
    requires
        links_sound(s.links),
    ensures
        delegate_refusal(s, delegator, delegate) is None && delegation_fits(
            s,
            delegator,
            delegate,
        ) ==> links_sound(delegated(s, delegator, delegate).links),
        withdrawal_fits(s, delegator) ==> links_sound(undelegated(s, delegator).links),
{
    let balance = s.balance(delegator);
    if s.links.can_cut(delegator, balance) {
        let loose = s.links.cut(delegator, balance);
        lemma_cut_sound(s.links, delegator, balance);
        if delegate_refusal(s, delegator, delegate) is None && loose.can_tie(
            delegator,
            balance,
            delegate,
        ) {
            if reaches(loose.delegates, delegate, delegator) {
                lemma_reach_stays(loose.delegates, s.links.delegates, delegate, delegator);
            }
            lemma_tied_sound(loose, delegator, balance, delegate);
        }
    }
}

/// Whether nobody holds less than nothing, delegations run in no circle, and the
/// tallies agree with the balances: see [`links_true`].
pub open spec fn delegations_sound(s: EnvView) -> bool {
    no_negative_balance(s.balances) && links_true(s.links, s.balances)
}

/// Where nobody has delegated yet, delegations are sound.
pub proof fn law_delegations_start_sound(s: EnvView)
    requires
        no_negative_balance(s.balances),
        s.links == (LinksView {
            delegates: Map::empty(),
            delegated: Map::empty(),
            passed_on: Map::empty(),
        }),
    ensures
        delegations_sound(s),
        links_sound(s.links),
{
    assert forall|a: Address, w: Address| !#[trigger] reaches(s.links.delegates, a, w) by {
        lemma_reaches_by_first_link(s.links.delegates, a, w);
    }
    assert forall|w: Address| #[trigger] s.links.incoming(w) == due(s.links, s.balances, w) by {
        assert(supporters(s.links.delegates, w) =~= Set::empty());
    }
}

/// A delegation that is accepted keeps delegations sound.
pub proof fn law_delegation_keeps_delegations_sound(
    s: EnvView,
    delegator: Address,
    delegate: Address,
)
    requires
        delegations_sound(s),
        delegate_refusal(s, delegator, delegate) is None,
        delegation_fits(s, delegator, delegate),
    ensures
        delegations_sound(delegated(s, delegator, delegate)),
{
    let loose = s.links.cut(delegator, s.balance(delegator));
    lemma_cut_true(s.links, s.balances, delegator);
    if reaches(loose.delegates, delegate, delegator) {
        lemma_reach_stays(loose.delegates, s.links.delegates, delegate, delegator);
    }
    lemma_tied_true(loose, s.balances, delegator, delegate);
}

/// Taking a delegation back keeps delegations sound.
pub proof fn law_undelegation_keeps_delegations_sound(s: EnvView, delegator: Address)
    requires
        delegations_sound(s),
        withdrawal_fits(s, delegator),
    ensures
        delegations_sound(undelegated(s, delegator)),
{
    lemma_cut_true(s.links, s.balances, delegator);
}

/// Proposals and votes leave delegations as they are.
pub proof fn law_other_steps_keep_delegations(
    s: EnvView,
    p: GovernanceProposal,
    voter: Address,
    id: u64,
    support: bool,
    status: ProposalStatus,
)
    ensures
        proposed(s, p).links == s.links && proposed(s, p).balances == s.balances,
        vote_cast(s, voter, id, support).links == s.links,
        vote_cast(s, voter, id, support).balances == s.balances,
        closed_as(s, id, status).links == s.links,
        closed_as(s, id, status).balances == s.balances,
        executed(s, id).links == s.links && executed(s, id).balances == s.balances,
{
}

/// Sound delegations can always be taken back, and made as long as the supply of the
/// token can be held: no sum comes out that cannot be.
pub proof fn law_sound_delegations_can_change(s: EnvView, delegator: Address, delegate: Address)
    requires
        delegations_sound(s),
        s.gov_token is Some,
    ensures
        withdrawal_fits(s, delegator),
        supply_fits(s.balances) ==> delegation_fits(s, delegator, delegate),
{
    lemma_can_cut(s.links, s.balances, delegator);
    lemma_cut_true(s.links, s.balances, delegator);
    if delegate_refusal(s, delegator, delegate) is None && supply_fits(s.balances) {
        let loose = s.links.cut(delegator, s.balance(delegator));
        if reaches(loose.delegates, delegate, delegator) {
            lemma_reach_stays(loose.delegates, s.links.delegates, delegate, delegator);
        }
        lemma_can_tie(loose, s.balances, delegator, delegate);
    }
}

/// Whoever delegates to nobody votes with what they hold and with what all the
/// others hold whose chains end with them; whoever delegates has no tally.
pub proof fn law_delegated_weight_reaches_the_end(s: EnvView, w: Address, id: u64)
    requires
        delegations_sound(s),
    ensures
        s.delegate_of(w) is None ==> s.delegated_to(w) == held_by_all(
            s.balances,
            supporters(s.links.delegates, w),
        ),
        s.delegate_of(w) is Some ==> s.delegated_to(w) == 0,
        !supporters(s.links.delegates, w).contains(w),
        vote_weight(s, w, id) == s.own_weight(id, w) + s.delegated_to(w),
{
    assert(s.links.incoming(w) == due(s.links, s.balances, w));
    assert(!reaches(s.links.delegates, w, w));
}

/// Nothing is delegated twice: of two addresses that delegate to nobody, none but one
/// can be where a chain ends.
pub proof fn law_no_weight_is_in_two_tallies(s: EnvView, a: Address, b: Address)
    requires
        a != b,
        s.delegate_of(a) is None,
        s.delegate_of(b) is None,
    ensures
        supporters(s.links.delegates, a).disjoint(supporters(s.links.delegates, b)),
{
    assert forall|x: Address| supporters(s.links.delegates, a).contains(x) implies !supporters(
        s.links.delegates,
        b,
    ).contains(x) by {
        if reaches(s.links.delegates, x, b) {
            lemma_one_end(s.links.delegates, x, a, b);
        }
    }
}

/// The tallies follow from who delegates to whom and who holds what: the order in
/// which the links were made makes no difference.
pub proof fn law_tallies_follow_the_links(s: EnvView, t: EnvView, w: Address)
    requires
        delegations_sound(s),
        delegations_sound(t),
        s.links.delegates == t.links.delegates,
        s.balances == t.balances,
    ensures
        s.delegated_to(w) == t.delegated_to(w),
{
    assert(s.links.incoming(w) == due(s.links, s.balances, w));
    assert(t.links.incoming(w) == due(t.links, t.balances, w));
}

/// Delegating and taking it back leaves all delegations and all tallies as they
/// were, for whoever had not delegated before and holds the same throughout. Taking
/// it back can always be asked.
pub proof fn law_undelegation_restores(
    s: EnvView,
    delegator: Address,
    delegate: Address,
    who: Address,
)
    requires
        links_sound(s.links),
        0 <= s.balance(delegator),
        s.delegate_of(delegator) is None,
        delegate_refusal(s, delegator, delegate) is None,
        delegation_fits(s, delegator, delegate),
    ensures
        withdrawal_fits(delegated(s, delegator, delegate), delegator),
        ({
            let t = undelegated(delegated(s, delegator, delegate), delegator);
            t.delegate_of(who) == s.delegate_of(who) && t.delegated_to(who) == s.delegated_to(who)
        }),
{
    let t = delegated(s, delegator, delegate);
    let u = undelegated(t, delegator);
    lemma_tied_and_cut(s.links, delegator, s.balance(delegator), delegate);
    assert(u.links.incoming(who) == s.links.incoming(who));
}

/// Taking back what was not delegated changes no delegation and no tally.
pub proof fn law_undelegation_without_a_delegation(s: EnvView, delegator: Address)
    requires
        s.delegate_of(delegator) is None,
    ensures
        withdrawal_fits(s, delegator),
        undelegated(s, delegator).links == s.links,
{
}

/// Delegating anew moves the weight: with everything that came to the delegator, it
/// leaves the tally at the old end of the chain for that at the new one, and
/// nobody else's tally changes.
pub proof fn law_redelegation_moves_the_weight(
    s: EnvView,
    delegator: Address,
    delegate: Address,
    old_end: Address,
    new_end: Address,
    who: Address,
)
    requires
        delegations_sound(s),
        delegate_refusal(s, delegator, delegate) is None,
        delegation_fits(s, delegator, delegate),
        s.delegate_of(delegator) is Some,
        reaches(s.links.delegates, delegator, old_end) && s.delegate_of(old_end) is None,
        on_chain(s.links.delegates, delegate, new_end) && s.delegate_of(new_end) is None,
        old_end != new_end,
    ensures
        ({
            let t = delegated(s, delegator, delegate);
            let brought = s.links.brought_by(delegator, s.balance(delegator));
            &&& t.delegate_of(delegator) == Some(delegate)
            &&& t.delegated_to(old_end) == s.delegated_to(old_end) - brought
            &&& t.delegated_to(new_end) == s.delegated_to(new_end) + brought
            &&& who != old_end && who != new_end ==> t.delegated_to(who) == s.delegated_to(who)
        }),
{
    let h = s.links.delegates;
    let g = h.remove(delegator);
    let y = h[delegator];
    let t = delegated(s, delegator, delegate);
    let loose = s.links.cut(delegator, s.balance(delegator));
    law_delegation_keeps_delegations_sound(s, delegator, delegate);
    law_delegations_change_one_link(s, delegator, delegate);
    lemma_cut_true(s.links, s.balances, delegator);
    lemma_unlinked(h, delegator);
    if reaches(g, delegate, delegator) {
        lemma_reach_stays(g, h, delegate, delegator);
    }
    assert(t.links.delegates =~= g.insert(delegator, delegate));
    assert(linked(g, t.links.delegates, delegator, delegate));
    assert(s.links.incoming(delegator) == due(s.links, s.balances, delegator));
    assert forall|w: Address| s.delegate_of(w) is None implies #[trigger] t.delegated_to(w)
        == s.delegated_to(w) + (if on_chain(g, delegate, w) {
        s.links.brought_by(delegator, s.balance(delegator))
    } else {
        0
    }) - (if on_chain(g, y, w) {
        s.links.brought_by(delegator, s.balance(delegator))
    } else {
        0
    }) by {
        assert(s.links.incoming(w) == due(s.links, s.balances, w));
        assert(t.links.incoming(w) == due(t.links, t.balances, w));
        lemma_due_in_linked(loose, s.links, s.balances, delegator, y, w);
        lemma_due_in_linked(loose, t.links, s.balances, delegator, delegate, w);
    }
    lemma_reaches_by_first_link(h, delegator, old_end);
    lemma_reach_in_linked(g, h, delegator, y, y, old_end);
    lemma_reach_in_linked(g, h, delegator, y, delegate, new_end);
    if on_chain(g, delegate, old_end) {
        lemma_one_end(g, delegate, old_end, new_end);
    }
    if on_chain(g, y, new_end) {
        lemma_one_end(g, y, old_end, new_end);
    }
    if s.delegate_of(who) is None && who != old_end && who != new_end {
        if on_chain(g, y, who) {
            lemma_one_end(g, y, old_end, who);
        }
        if on_chain(g, delegate, who) {
            lemma_one_end(g, delegate, new_end, who);
        }
    }
}

} // verus!

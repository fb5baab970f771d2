//! What the tallies add up to: the balances of everyone whose chain comes there.

use crate::host::Address;
use crate::iln_governance::chain::{
    acyclic, hop, lemma_chain_ends, lemma_first_link, lemma_linked_acyclic,
    lemma_reach_in_linked, lemma_reaches_by_first_link, lemma_supporters_finite,
    lemma_supporters_in_linked, lemma_unlinked, linked, on_chain, reaches, supporters,
};
use crate::iln_governance::links::{is_weight, kept, LinksView};
use vstd::prelude::*;

verus! {

/// Sum of the balances of a set of addresses.
pub open spec fn held_by_all(balances: Map<Address, i128>, who: Set<Address>) -> int
    decreases who.len(),
{
    if who.finite() && who.len() > 0 {
        let a = who.choose();
        kept(balances, a) + held_by_all(balances, who.remove(a))
    } else {
        0
    }
}

/// Nobody holds less than nothing.
pub open spec fn no_negative_balance(balances: Map<Address, i128>) -> bool {
    forall|a: Address| 0 <= #[trigger] kept(balances, a)
}

/// The weight that comes to an address by right: the balances of all whose chains
/// come there.
pub open spec fn due(l: LinksView, balances: Map<Address, i128>, w: Address) -> int {
    held_by_all(balances, supporters(l.delegates, w))
}

/// Whether delegations run in no circle and every number agrees with the balances:
/// what comes to an address is the sum of the balances of all whose chains come
/// there. It stays with whoever delegates to nobody, and is passed on by whoever
/// does, so that nothing is counted in two tallies.
pub open spec fn links_true(l: LinksView, balances: Map<Address, i128>) -> bool {
    &&& l.delegates.dom().finite()
    &&& acyclic(l.delegates)
    &&& forall|w: Address| #[trigger] l.incoming(w) == due(l, balances, w)
    &&& forall|w: Address| #[trigger]
        l.delegates.contains_key(w) ==> kept(l.delegated, w) == 0
    &&& forall|w: Address| !#[trigger] l.delegates.contains_key(w) ==> kept(l.passed_on, w) == 0
}

/// Whether delegations run in no circle and no number is negative or kept where it
/// does not belong. This stays so whatever happens to the balances.
pub open spec fn links_sound(l: LinksView) -> bool {
    &&& l.delegates.dom().finite()
    &&& acyclic(l.delegates)
    &&& forall|w: Address| 0 <= #[trigger] l.incoming(w)
    &&& forall|w: Address| #[trigger]
        l.delegates.contains_key(w) ==> kept(l.delegated, w) == 0
    &&& forall|w: Address| !#[trigger] l.delegates.contains_key(w) ==> kept(l.passed_on, w) == 0
}

// ----------------------------------------------------------------
// Sums
// ----------------------------------------------------------------

proof fn lemma_sum_without(balances: Map<Address, i128>, who: Set<Address>, a: Address)
    requires
        who.finite(),
        who.contains(a),
    ensures
        held_by_all(balances, who) == kept(balances, a) + held_by_all(balances, who.remove(a)),
    decreases who.len(),
{
    let b = who.choose();
    if a != b {
        lemma_sum_without(balances, who.remove(b), a);
        lemma_sum_without(balances, who.remove(a), b);
        assert(who.remove(b).remove(a) =~= who.remove(a).remove(b));
    }
}

proof fn lemma_sum_union(balances: Map<Address, i128>, a: Set<Address>, b: Set<Address>)
    requires
        a.finite(),
        b.finite(),
        a.disjoint(b),
    ensures
        held_by_all(balances, a.union(b)) == held_by_all(balances, a) + held_by_all(balances, b),
    decreases b.len(),
{
    if b.len() == 0 {
        assert(a.union(b) =~= a);
    } else {
        let x = b.choose();
        lemma_sum_without(balances, a.union(b), x);
        assert(a.union(b).remove(x) =~= a.union(b.remove(x)));
        lemma_sum_union(balances, a, b.remove(x));
    }
}

pub(crate) proof fn lemma_sum_nonnegative(balances: Map<Address, i128>, who: Set<Address>)
    requires
        no_negative_balance(balances),
    ensures
        0 <= held_by_all(balances, who),
    decreases who.len(),
{
    if who.finite() && who.len() > 0 {
        assert(0 <= kept(balances, who.choose()));
        lemma_sum_nonnegative(balances, who.remove(who.choose()));
    }
}

/// What one link more brings: whatever lies behind it is due what its start holds
/// and is due.
pub(crate) proof fn lemma_due_in_linked(
    g: LinksView,
    h: LinksView,
    balances: Map<Address, i128>,
    d: Address,
    y: Address,
    w: Address,
)
    requires
        linked(g.delegates, h.delegates, d, y),
    ensures
        due(h, balances, w) == due(g, balances, w) + (if on_chain(g.delegates, y, w) {
            kept(balances, d) + due(g, balances, d)
        } else {
            0
        }),
        due(h, balances, d) == due(g, balances, d),
{
    lemma_supporters_in_linked(g.delegates, h.delegates, d, y, w);
    lemma_supporters_in_linked(g.delegates, h.delegates, d, y, d);
    lemma_supporters_finite(g.delegates, w);
    lemma_supporters_finite(g.delegates, d);
    if on_chain(g.delegates, y, w) {
        let more = supporters(g.delegates, d);
        lemma_reaches_by_first_link(g.delegates, d, d);
        assert(more.insert(d).remove(d) =~= more);
        lemma_sum_without(balances, more.insert(d), d);
        lemma_sum_union(balances, supporters(g.delegates, w), more.insert(d));
    }
}

// ----------------------------------------------------------------
// Flow
// ----------------------------------------------------------------

/// `n`, or zero where it is negative.
pub open spec fn positive_part(n: int) -> int {
    if n <= 0 {
        0
    } else {
        n
    }
}

/// A flow changes what comes to everyone on the chain, and nothing else.
proof fn lemma_flow(l: LinksView, from: Address, delta: int, hops: nat)
    requires
        acyclic(l.delegates),
        hop(l.delegates, from, hops + 1) is None,
        l.can_flow(from, delta, hops),
    ensures
        ({
            let t = l.flowed(from, delta, hops);
            &&& t.delegates == l.delegates
            &&& forall|x: Address| #[trigger]
                t.incoming(x) == (if on_chain(l.delegates, from, x) {
                    positive_part(l.incoming(x) + delta)
                } else {
                    l.incoming(x) as int
                })
            &&& forall|x: Address|
                l.delegates.contains_key(x) ==> #[trigger] kept(t.delegated, x) == kept(
                    l.delegated,
                    x,
                )
            &&& forall|x: Address|
                !l.delegates.contains_key(x) ==> #[trigger] kept(t.passed_on, x) == kept(
                    l.passed_on,
                    x,
                )
        }),
    decreases hops,
{
    let g = l.delegates;
    let t = l.flowed(from, delta, hops);
    if g.contains_key(from) {
        if hops == 0 {
            assert(hop(g, from, 0) == Some(from));
            assert(hop(g, from, 1) is Some);
        }
        let m = l.passage_adjusted(from, delta);
        let next = g[from];
        lemma_first_link(g, from, hops);
        lemma_flow(m, next, delta, (hops - 1) as nat);
        assert(!on_chain(g, next, from)) by {
            lemma_reaches_by_first_link(g, from, from);
            assert(!reaches(g, from, from));
        }
        assert forall|x: Address| #[trigger]
            t.incoming(x) == (if on_chain(g, from, x) {
                positive_part(l.incoming(x) + delta)
            } else {
                l.incoming(x) as int
            }) by {
            lemma_reaches_by_first_link(g, from, x);
            assert(x != from ==> m.incoming(x) == l.incoming(x));
        }
    } else {
        assert forall|x: Address| #[trigger]
            t.incoming(x) == (if on_chain(g, from, x) {
                positive_part(l.incoming(x) + delta)
            } else {
                l.incoming(x) as int
            }) by {
            lemma_reaches_by_first_link(g, from, x);
        }
    }
}

/// A flow can be held if it can be held by everyone on the chain.
proof fn lemma_can_flow(l: LinksView, from: Address, delta: int, hops: nat)
    requires
        acyclic(l.delegates),
        hop(l.delegates, from, hops + 1) is None,
        forall|x: Address|
            on_chain(l.delegates, from, x) ==> is_weight(#[trigger] l.incoming(x) + delta),
    ensures
        l.can_flow(from, delta, hops),
    decreases hops,
{
    let g = l.delegates;
    assert(is_weight(l.incoming(from) + delta));
    if g.contains_key(from) {
        if hops == 0 {
            assert(hop(g, from, 0) == Some(from));
            assert(hop(g, from, 1) is Some);
        }
        let m = l.passage_adjusted(from, delta);
        let next = g[from];
        lemma_first_link(g, from, hops);
        assert(!on_chain(g, next, from)) by {
            lemma_reaches_by_first_link(g, from, from);
            assert(!reaches(g, from, from));
        }
        assert forall|x: Address| on_chain(g, next, x) implies is_weight(
            #[trigger] m.incoming(x) + delta,
        ) by {
            lemma_reaches_by_first_link(g, from, x);
            assert(m.incoming(x) == l.incoming(x));
        }
        lemma_can_flow(m, next, delta, (hops - 1) as nat);
    }
}

// ----------------------------------------------------------------
// Links that are cut and tied
// ----------------------------------------------------------------

/// Cutting somebody loose keeps the links sound, and changes what comes to everyone
/// whom they reach, and nothing else.
pub(crate) proof fn lemma_cut_sound(l: LinksView, d: Address, balance: i128)
    requires
        links_sound(l),
        l.can_cut(d, balance),
    ensures
        links_sound(l.cut(d, balance)),
        l.cut(d, balance).delegates == l.delegates.remove(d),
        forall|w: Address| #[trigger]
            l.cut(d, balance).incoming(w) == (if reaches(l.delegates, d, w) {
                positive_part(l.incoming(w) - l.brought_by(d, balance))
            } else {
                l.incoming(w) as int
            }),
{
    let t = l.cut(d, balance);
    if l.delegates.contains_key(d) {
        let h = l.delegates;
        let y = h[d];
        let brought = l.brought_by(d, balance);
        let drained = l.flowed(y, -brought, l.count());
        lemma_unlinked(h, d);
        lemma_chain_ends(h, y);
        lemma_flow(l, y, -brought, l.count());
        assert(!reaches(h, d, d));
        lemma_reaches_by_first_link(h, d, d);
        assert(drained.incoming(d) == l.incoming(d));
        assert(0 <= l.incoming(d));
        assert forall|w: Address| #[trigger]
            t.incoming(w) == (if reaches(h, d, w) {
                positive_part(l.incoming(w) - brought)
            } else {
                l.incoming(w) as int
            }) by {
            lemma_reaches_by_first_link(h, d, w);
            if w != d {
                assert(t.incoming(w) == drained.incoming(w));
            }
        }
        assert forall|w: Address| 0 <= #[trigger] t.incoming(w) by {
            assert(0 <= l.incoming(w));
        }
        assert forall|w: Address| #[trigger] t.delegates.contains_key(w) implies kept(
            t.delegated,
            w,
        ) == 0 by {
            assert(l.delegates.contains_key(w));
            assert(kept(drained.delegated, w) == kept(l.delegated, w));
        }
        assert forall|w: Address| !#[trigger] t.delegates.contains_key(w) implies kept(
            t.passed_on,
            w,
        ) == 0 by {
            if w != d {
                assert(!l.delegates.contains_key(w));
                assert(kept(drained.passed_on, w) == kept(l.passed_on, w));
            }
        }
    } else {
        assert(l.delegates.remove(d) =~= l.delegates);
        assert forall|w: Address| !#[trigger] reaches(l.delegates, d, w) by {
            lemma_reaches_by_first_link(l.delegates, d, w);
        }
    }
}

/// Tying somebody who is loose keeps the links sound, as long as that closes no
/// cycle, and changes what comes to everyone on the chain, and nothing else.
pub(crate) proof fn lemma_tied_sound(l: LinksView, d: Address, balance: i128, y: Address)
    requires
        links_sound(l),
        !l.delegates.contains_key(d),
        !on_chain(l.delegates, y, d),
        l.can_tie(d, balance, y),
    ensures
        links_sound(l.tied(d, balance, y)),
        l.tied(d, balance, y).delegates == l.delegates.insert(d, y),
        forall|w: Address| #[trigger]
            l.tied(d, balance, y).incoming(w) == (if on_chain(l.delegates, y, w) {
                positive_part(l.incoming(w) + l.brought_by(d, balance))
            } else {
                l.incoming(w) as int
            }),
{
    let g = l.delegates;
    let h = g.insert(d, y);
    let brought = l.brought_by(d, balance);
    let filled = l.flowed(y, brought, l.count());
    let t = l.tied(d, balance, y);
    assert(linked(g, h, d, y));
    lemma_linked_acyclic(g, h, d, y);
    lemma_chain_ends(g, y);
    lemma_flow(l, y, brought, l.count());
    assert(filled.incoming(d) == l.incoming(d));
    assert(0 <= l.incoming(d));
    assert forall|w: Address| #[trigger]
        t.incoming(w) == (if on_chain(g, y, w) {
            positive_part(l.incoming(w) + brought)
        } else {
            l.incoming(w) as int
        }) by {
        if w != d {
            assert(t.incoming(w) == filled.incoming(w));
        }
    }
    assert forall|w: Address| 0 <= #[trigger] t.incoming(w) by {
        assert(0 <= l.incoming(w));
    }
    assert forall|w: Address| #[trigger] t.delegates.contains_key(w) implies kept(
        t.delegated,
        w,
    ) == 0 by {
        if w != d {
            assert(l.delegates.contains_key(w));
            assert(kept(filled.delegated, w) == kept(l.delegated, w));
        }
    }
    assert forall|w: Address| !#[trigger] t.delegates.contains_key(w) implies kept(
        t.passed_on,
        w,
    ) == 0 by {
        assert(!l.delegates.contains_key(w));
        assert(kept(filled.passed_on, w) == kept(l.passed_on, w));
    }
}

/// Where the links are true, they are sound.
pub(crate) proof fn lemma_true_is_sound(l: LinksView, balances: Map<Address, i128>)
    requires
        links_true(l, balances),
        no_negative_balance(balances),
    ensures
        links_sound(l),
{
    assert forall|w: Address| 0 <= #[trigger] l.incoming(w) by {
        assert(l.incoming(w) == due(l, balances, w));
        lemma_sum_nonnegative(balances, supporters(l.delegates, w));
    }
}

/// Cutting somebody loose keeps the links true.
pub(crate) proof fn lemma_cut_true(l: LinksView, balances: Map<Address, i128>, d: Address)
    requires
        links_true(l, balances),
        no_negative_balance(balances),
        l.can_cut(d, kept(balances, d)),
    ensures
        links_true(l.cut(d, kept(balances, d)), balances),
        l.cut(d, kept(balances, d)).delegates == l.delegates.remove(d),
{
    let t = l.cut(d, kept(balances, d));
    lemma_true_is_sound(l, balances);
    lemma_cut_sound(l, d, kept(balances, d));
    assert(l.incoming(d) == due(l, balances, d));
    assert forall|w: Address| #[trigger] t.incoming(w) == due(t, balances, w) by {
        assert(l.incoming(w) == due(l, balances, w));
        if l.delegates.contains_key(d) {
            let y = l.delegates[d];
            lemma_unlinked(l.delegates, d);
            lemma_due_in_linked(t, l, balances, d, y, w);
            lemma_sum_nonnegative(balances, supporters(t.delegates, w));
            lemma_reach_in_linked(t.delegates, l.delegates, d, y, y, w);
            lemma_reaches_by_first_link(l.delegates, d, w);
        } else {
            assert(t.delegates =~= l.delegates);
        }
    }
}

/// Tying somebody who is loose keeps the links true, as long as that closes no cycle.
pub(crate) proof fn lemma_tied_true(
    l: LinksView,
    balances: Map<Address, i128>,
    d: Address,
    y: Address,
)
    requires
        links_true(l, balances),
        no_negative_balance(balances),
        !l.delegates.contains_key(d),
        !on_chain(l.delegates, y, d),
        l.can_tie(d, kept(balances, d), y),
    ensures
        links_true(l.tied(d, kept(balances, d), y), balances),
{
    let t = l.tied(d, kept(balances, d), y);
    lemma_true_is_sound(l, balances);
    lemma_tied_sound(l, d, kept(balances, d), y);
    assert(linked(l.delegates, t.delegates, d, y));
    assert(l.incoming(d) == due(l, balances, d));
    assert(0 <= l.incoming(d));
    assert(0 <= kept(balances, d));
    assert forall|w: Address| #[trigger] t.incoming(w) == due(t, balances, w) by {
        assert(l.incoming(w) == due(l, balances, w));
        assert(0 <= l.incoming(w));
        lemma_due_in_linked(l, t, balances, d, y, w);
    }
}

/// Tying somebody and cutting them loose again undoes itself, for whoever holds no
/// less than nothing.
pub(crate) proof fn lemma_tied_and_cut(l: LinksView, d: Address, balance: i128, y: Address)
    requires
        links_sound(l),
        !l.delegates.contains_key(d),
        !on_chain(l.delegates, y, d),
        l.can_tie(d, balance, y),
        0 <= balance,
    ensures
        l.tied(d, balance, y).can_cut(d, balance),
        l.tied(d, balance, y).cut(d, balance).delegates == l.delegates,
        links_sound(l.tied(d, balance, y).cut(d, balance)),
        forall|w: Address| #[trigger]
            l.tied(d, balance, y).cut(d, balance).incoming(w) == l.incoming(w),
{
    let t = l.tied(d, balance, y);
    let brought = l.brought_by(d, balance);
    lemma_tied_sound(l, d, balance, y);
    assert(linked(l.delegates, t.delegates, d, y));
    assert(0 <= l.incoming(d));
    assert(t.incoming(d) == l.incoming(d));
    lemma_chain_ends(t.delegates, y);
    assert forall|x: Address| #[trigger] on_chain(t.delegates, y, x) == on_chain(
        l.delegates,
        y,
        x,
    ) by {
        lemma_reach_in_linked(l.delegates, t.delegates, d, y, y, x);
    }
    assert forall|x: Address| on_chain(t.delegates, y, x) implies is_weight(
        #[trigger] t.incoming(x) + (-brought),
    ) by {
        assert(0 <= l.incoming(x));
        assert(on_chain(l.delegates, y, x));
    }
    lemma_can_flow(t, y, -brought, t.count());
    lemma_cut_sound(t, d, balance);
    assert(t.cut(d, balance).delegates =~= l.delegates);
    assert forall|w: Address| #[trigger] t.cut(d, balance).incoming(w) == l.incoming(w) by {
        lemma_reaches_by_first_link(t.delegates, d, w);
        assert(on_chain(t.delegates, y, w) == on_chain(l.delegates, y, w));
        assert(0 <= l.incoming(w));
    }
}

/// Whether all balances together can be held as one weight.
pub open spec fn supply_fits(balances: Map<Address, i128>) -> bool {
    forall|who: Set<Address>| who.finite() ==> #[trigger] held_by_all(balances, who) <= i128::MAX
}

/// With true links, cutting somebody loose makes no sum that cannot be held.
pub(crate) proof fn lemma_can_cut(l: LinksView, balances: Map<Address, i128>, d: Address)
    requires
        links_true(l, balances),
        no_negative_balance(balances),
    ensures
        l.can_cut(d, kept(balances, d)),
{
    if l.delegates.contains_key(d) {
        let h = l.delegates;
        let g = h.remove(d);
        let y = h[d];
        let brought = l.brought_by(d, kept(balances, d));
        let loose = LinksView { delegates: g, ..l };
        lemma_unlinked(h, d);
        lemma_chain_ends(h, y);
        assert(l.incoming(d) == due(l, balances, d));
        lemma_due_in_linked(loose, l, balances, d, y, y);
        lemma_sum_nonnegative(balances, supporters(g, d));
        lemma_sum_nonnegative(balances, supporters(g, y));
        assert(0 <= kept(balances, d));
        assert(l.incoming(y) == due(l, balances, y));
        assert forall|x: Address| on_chain(h, y, x) implies is_weight(
            #[trigger] l.incoming(x) + (-brought),
        ) by {
            lemma_due_in_linked(loose, l, balances, d, y, x);
            lemma_sum_nonnegative(balances, supporters(g, x));
            lemma_reach_in_linked(g, h, d, y, y, x);
            assert(l.incoming(x) == due(l, balances, x));
        }
        lemma_can_flow(l, y, -brought, l.count());
    }
}

/// With true links, tying somebody who is loose makes no sum that cannot be held.
pub(crate) proof fn lemma_can_tie(
    l: LinksView,
    balances: Map<Address, i128>,
    d: Address,
    y: Address,
)
    requires
        links_true(l, balances),
        no_negative_balance(balances),
        supply_fits(balances),
        !l.delegates.contains_key(d),
        !on_chain(l.delegates, y, d),
    ensures
        l.can_tie(d, kept(balances, d), y),
{
    let g = l.delegates;
    let h = g.insert(d, y);
    let brought = l.brought_by(d, kept(balances, d));
    let firm = LinksView { delegates: h, ..l };
    assert(linked(g, h, d, y));
    lemma_linked_acyclic(g, h, d, y);
    lemma_chain_ends(g, y);
    assert(l.incoming(d) == due(l, balances, d));
    lemma_due_in_linked(l, firm, balances, d, y, y);
    lemma_sum_nonnegative(balances, supporters(g, d));
    lemma_sum_nonnegative(balances, supporters(g, y));
    lemma_supporters_finite(h, y);
    assert(0 <= kept(balances, d));
    assert(held_by_all(balances, supporters(h, y)) <= i128::MAX);
    assert forall|x: Address| on_chain(g, y, x) implies is_weight(
        #[trigger] l.incoming(x) + brought,
    ) by {
        lemma_due_in_linked(l, firm, balances, d, y, x);
        lemma_supporters_finite(h, x);
        assert(held_by_all(balances, supporters(h, x)) <= i128::MAX);
        assert(l.incoming(x) == due(l, balances, x));
    }
    lemma_can_flow(l, y, brought, l.count());
}

} // verus!

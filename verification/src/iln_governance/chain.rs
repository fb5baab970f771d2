//! Chains of delegations: whom one link after the other leads to.
//!
//! The links are a map from whoever delegates to whom they delegate.

use crate::host::Address;
use vstd::prelude::*;

verus! {

/// Where `k` links lead from `from`; nowhere, if the chain ends before.
pub open spec fn hop(g: Map<Address, Address>, from: Address, k: nat) -> Option<Address>
    decreases k,
{
    if k == 0 {
        Some(from)
    } else {
        match hop(g, from, (k - 1) as nat) {
            Some(a) => if g.contains_key(a) {
                Some(g[a])
            } else {
                None
            },
            None => None,
        }
    }
}

/// Whether following the links from `from`, at least one of them, arrives at
/// `target`.
pub open spec fn reaches(g: Map<Address, Address>, from: Address, target: Address) -> bool {
    exists|k: nat| k > 0 && #[trigger] hop(g, from, k) == Some(target)
}

/// Whether `x` is on the chain that starts at `from`, be it at its start.
pub open spec fn on_chain(g: Map<Address, Address>, from: Address, x: Address) -> bool {
    x == from || reaches(g, from, x)
}

/// No chain comes back to where it started.
pub open spec fn acyclic(g: Map<Address, Address>) -> bool {
    forall|a: Address| !#[trigger] reaches(g, a, a)
}

/// Everyone whose chain comes to `w`.
pub open spec fn supporters(g: Map<Address, Address>, w: Address) -> Set<Address> {
    Set::new(|a: Address| reaches(g, a, w))
}

pub(crate) proof fn lemma_hop_after(g: Map<Address, Address>, from: Address, j: nat, k: nat)
    ensures
        hop(g, from, j + k) == (match hop(g, from, j) {
            Some(a) => hop(g, a, k),
            None => None,
        }),
    decreases k,
{
    if k > 0 {
        lemma_hop_after(g, from, j, (k - 1) as nat);
    }
}

/// The first link of a chain, and the rest of it.
pub(crate) proof fn lemma_first_link(g: Map<Address, Address>, from: Address, k: nat)
    requires
        g.contains_key(from),
    ensures
        hop(g, from, k + 1) == hop(g, g[from], k),
{
    assert(hop(g, from, 0) == Some(from));
    assert(hop(g, from, 1) == Some(g[from]));
    lemma_hop_after(g, from, 1, k);
    assert(1 + k == k + 1);
}

/// Whoever has no link reaches nobody; whoever has one reaches whom it points at,
/// and whom they reach.
pub(crate) proof fn lemma_reaches_by_first_link(
    g: Map<Address, Address>,
    from: Address,
    target: Address,
)
    ensures
        reaches(g, from, target) <==> g.contains_key(from) && on_chain(g, g[from], target),
{
    assert(hop(g, from, 0) == Some(from));
    if reaches(g, from, target) {
        let k = choose|k: nat| k > 0 && #[trigger] hop(g, from, k) == Some(target);
        lemma_hop_after(g, from, 1, (k - 1) as nat);
        assert(hop(g, from, 1) is Some);
        assert(hop(g, g[from], (k - 1) as nat) == Some(target));
        if k == 1 {
            assert(hop(g, g[from], 0) == Some(g[from]));
        }
    }
    if g.contains_key(from) && on_chain(g, g[from], target) {
        let j = if g[from] == target {
            0
        } else {
            choose|j: nat| j > 0 && #[trigger] hop(g, g[from], j) == Some(target)
        };
        assert(hop(g, g[from], j) == Some(target));
        lemma_first_link(g, from, j);
        assert(hop(g, from, j + 1) == Some(target));
    }
}

pub(crate) proof fn lemma_reaches_on(
    g: Map<Address, Address>,
    a: Address,
    b: Address,
    c: Address,
)
    requires
        reaches(g, a, b),
        reaches(g, b, c),
    ensures
        reaches(g, a, c),
{
    let j = choose|j: nat| j > 0 && #[trigger] hop(g, a, j) == Some(b);
    let k = choose|k: nat| k > 0 && #[trigger] hop(g, b, k) == Some(c);
    lemma_hop_after(g, a, j, k);
    assert(hop(g, a, j + k) == Some(c));
}

/// The links of a chain come one after the other, without a gap.
proof fn lemma_no_gap(g: Map<Address, Address>, from: Address, i: nat, k: nat)
    requires
        i < k,
        hop(g, from, k) is Some,
    ensures
        hop(g, from, i) is Some,
        g.contains_key(hop(g, from, i)->0),
{
    lemma_hop_after(g, from, i, (k - i) as nat);
    let a = hop(g, from, i)->0;
    assert(hop(g, a, 0) == Some(a));
    lemma_hop_after(g, a, 1, (k - i - 1) as nat);
    assert(hop(g, a, 1) is Some);
}

/// A chain that does not repeat itself has no more links than there are.
proof fn lemma_no_more_than_all(g: Map<Address, Address>, from: Address, k: nat)
    requires
        g.dom().finite(),
        hop(g, from, k) is Some,
        forall|i: nat, j: nat|
            i < j < k ==> #[trigger] hop(g, from, i) != #[trigger] hop(g, from, j),
    ensures
        k <= g.dom().len(),
{
    let nodes = Seq::new(k, |i: int| hop(g, from, i as nat)->0);
    assert forall|i: int| 0 <= i < k implies g.contains_key(#[trigger] nodes[i]) && hop(
        g,
        from,
        i as nat,
    ) == Some(nodes[i]) by {
        lemma_no_gap(g, from, i as nat, k);
    }
    assert forall|i: int, j: int| 0 <= i < nodes.len() && 0 <= j < nodes.len() && i
        != j implies nodes[i] != nodes[j] by {
        if i < j {
            assert(hop(g, from, i as nat) != hop(g, from, j as nat));
        } else {
            assert(hop(g, from, j as nat) != hop(g, from, i as nat));
        }
    }
    nodes.unique_seq_to_set();
    assert(nodes.to_set().subset_of(g.dom()));
    vstd::set_lib::lemma_len_subset(nodes.to_set(), g.dom());
}

/// The least number of links, at least one, after which a chain arrives.
proof fn first_arrival(g: Map<Address, Address>, from: Address, target: Address, k: nat) -> (m: nat)
    requires
        k > 0,
        hop(g, from, k) == Some(target),
    ensures
        0 < m <= k,
        hop(g, from, m) == Some(target),
        forall|j: nat| 0 < j < m ==> #[trigger] hop(g, from, j) != Some(target),
    decreases k,
{
    if exists|j: nat| 0 < j < k && #[trigger] hop(g, from, j) == Some(target) {
        let j = choose|j: nat| 0 < j < k && #[trigger] hop(g, from, j) == Some(target);
        first_arrival(g, from, target, j)
    } else {
        k
    }
}

/// Whoever is reached at all is reached after no more links than there are.
pub(crate) proof fn lemma_reached_in_time(g: Map<Address, Address>, from: Address, target: Address)
    requires
        g.dom().finite(),
        reaches(g, from, target),
    ensures
        exists|k: nat| 0 < k <= g.dom().len() && #[trigger] hop(g, from, k) == Some(target),
{
    let k = choose|k: nat| k > 0 && #[trigger] hop(g, from, k) == Some(target);
    let m = first_arrival(g, from, target, k);
    assert forall|i: nat, j: nat| i < j < m implies #[trigger] hop(g, from, i) != #[trigger] hop(
        g,
        from,
        j,
    ) by {
        if hop(g, from, i) == hop(g, from, j) {
            lemma_hop_after(g, from, i, (m - j) as nat);
            lemma_hop_after(g, from, j, (m - j) as nat);
            lemma_no_gap(g, from, i, m);
            assert(hop(g, from, (i + (m - j)) as nat) == Some(target));
        }
    }
    lemma_no_more_than_all(g, from, m);
}

/// Without cycles, a chain has ended after as many links as there are.
pub(crate) proof fn lemma_chain_ends(g: Map<Address, Address>, from: Address)
    requires
        g.dom().finite(),
        acyclic(g),
    ensures
        hop(g, from, g.dom().len() + 1) is None,
{
    let k = g.dom().len() + 1;
    if hop(g, from, k) is Some {
        assert forall|i: nat, j: nat| i < j < k implies #[trigger] hop(g, from, i)
            != #[trigger] hop(g, from, j) by {
            if hop(g, from, i) == hop(g, from, j) {
                lemma_no_gap(g, from, i, k);
                let a = hop(g, from, i)->0;
                lemma_hop_after(g, from, i, (j - i) as nat);
                assert(hop(g, a, (j - i) as nat) == Some(a));
                assert(reaches(g, a, a));
            }
        }
        lemma_no_more_than_all(g, from, k);
    }
}

/// A chain has one end.
pub(crate) proof fn lemma_one_end(
    g: Map<Address, Address>,
    from: Address,
    a: Address,
    b: Address,
)
    requires
        on_chain(g, from, a),
        on_chain(g, from, b),
        !g.contains_key(a),
        !g.contains_key(b),
    ensures
        a == b,
{
    assert(hop(g, from, 0) == Some(from));
    let i = choose|i: nat| #[trigger] hop(g, from, i) == Some(a);
    let j = choose|j: nat| #[trigger] hop(g, from, j) == Some(b);
    if i < j {
        lemma_no_gap(g, from, i, j);
    } else if j < i {
        lemma_no_gap(g, from, j, i);
    }
}

// ----------------------------------------------------------------
// One link more
// ----------------------------------------------------------------

/// Whether `h` has the links of `g`, and one from `d` to `y` besides, which closes
/// no cycle.
pub open spec fn linked(
    g: Map<Address, Address>,
    h: Map<Address, Address>,
    d: Address,
    y: Address,
) -> bool {
    &&& g.dom().finite()
    &&& acyclic(g)
    &&& !g.contains_key(d)
    &&& !on_chain(g, y, d)
    &&& h == g.insert(d, y)
}

proof fn lemma_hops_stay(g: Map<Address, Address>, h: Map<Address, Address>, from: Address, k: nat)
    requires
        forall|a: Address| #[trigger] g.contains_key(a) ==> h.contains_key(a) && h[a] == g[a],
        hop(g, from, k) is Some,
    ensures
        hop(h, from, k) == hop(g, from, k),
    decreases k,
{
    if k > 0 {
        lemma_no_gap(g, from, (k - 1) as nat, k);
        lemma_hops_stay(g, h, from, (k - 1) as nat);
    }
}

/// With more links, whoever was reached still is.
pub(crate) proof fn lemma_reach_stays(
    g: Map<Address, Address>,
    h: Map<Address, Address>,
    a: Address,
    b: Address,
)
    requires
        forall|x: Address| #[trigger] g.contains_key(x) ==> h.contains_key(x) && h[x] == g[x],
        reaches(g, a, b),
    ensures
        reaches(h, a, b),
{
    let k = choose|k: nat| k > 0 && #[trigger] hop(g, a, k) == Some(b);
    lemma_hops_stay(g, h, a, k);
}

proof fn lemma_hop_in_linked(
    g: Map<Address, Address>,
    h: Map<Address, Address>,
    d: Address,
    y: Address,
    a: Address,
    w: Address,
    k: nat,
)
    requires
        linked(g, h, d, y),
        k > 0,
        hop(h, a, k) == Some(w),
    ensures
        reaches(g, a, w) || (on_chain(g, a, d) && on_chain(g, y, w)),
    decreases k,
{
    let v = hop(h, a, (k - 1) as nat)->0;
    if k == 1 {
        assert(hop(h, a, 0) == Some(a));
        lemma_reaches_by_first_link(g, a, w);
    } else {
        lemma_hop_in_linked(g, h, d, y, a, v, (k - 1) as nat);
        if v == d {
            assert(w == y);
        } else {
            lemma_reaches_by_first_link(g, v, w);
            if reaches(g, a, v) {
                lemma_reaches_on(g, a, v, w);
            } else if v != y {
                lemma_reaches_on(g, y, v, w);
            }
        }
    }
}

/// Who reaches whom with one link more: whoever did before, and whoever comes to
/// its start reaches whatever lies behind it.
pub(crate) proof fn lemma_reach_in_linked(
    g: Map<Address, Address>,
    h: Map<Address, Address>,
    d: Address,
    y: Address,
    a: Address,
    w: Address,
)
    requires
        linked(g, h, d, y),
    ensures
        reaches(h, a, w) <==> reaches(g, a, w) || (on_chain(g, a, d) && on_chain(g, y, w)),
{
    if reaches(h, a, w) {
        let k = choose|k: nat| k > 0 && #[trigger] hop(h, a, k) == Some(w);
        lemma_hop_in_linked(g, h, d, y, a, w, k);
    }
    if reaches(g, a, w) {
        lemma_reach_stays(g, h, a, w);
    }
    if on_chain(g, a, d) && on_chain(g, y, w) {
        if y != w {
            lemma_reach_stays(g, h, y, w);
        }
        lemma_reaches_by_first_link(h, d, w);
        if a != d {
            lemma_reach_stays(g, h, a, d);
            lemma_reaches_on(h, a, d, w);
        }
    }
}

/// A link that closes no cycle leaves none.
pub(crate) proof fn lemma_linked_acyclic(
    g: Map<Address, Address>,
    h: Map<Address, Address>,
    d: Address,
    y: Address,
)
    requires
        linked(g, h, d, y),
    ensures
        acyclic(h),
        h.dom().finite(),
{
    assert forall|a: Address| !#[trigger] reaches(h, a, a) by {
        lemma_reach_in_linked(g, h, d, y, a, a);
        if on_chain(g, a, d) && on_chain(g, y, a) && a != d && a != y {
            lemma_reaches_on(g, y, a, d);
        }
    }
}

/// Without one of its links, a graph without cycles is linked by it.
pub(crate) proof fn lemma_unlinked(h: Map<Address, Address>, d: Address)
    requires
        h.dom().finite(),
        acyclic(h),
        h.contains_key(d),
    ensures
        linked(h.remove(d), h, d, h[d]),
{
    let g = h.remove(d);
    let y = h[d];
    assert forall|a: Address| !#[trigger] reaches(g, a, a) by {
        if reaches(g, a, a) {
            lemma_reach_stays(g, h, a, a);
        }
    }
    if on_chain(g, y, d) {
        if y != d {
            lemma_reach_stays(g, h, y, d);
        }
        lemma_reaches_by_first_link(h, d, d);
        assert(reaches(h, d, d));
    }
    assert(h =~= g.insert(d, y));
}

/// With one link more, whatever lies behind it is supported by its start and the
/// supporters of that as well; they were not among its supporters before. Nobody
/// else's supporters change.
pub(crate) proof fn lemma_supporters_in_linked(
    g: Map<Address, Address>,
    h: Map<Address, Address>,
    d: Address,
    y: Address,
    w: Address,
)
    requires
        linked(g, h, d, y),
    ensures
        on_chain(g, y, w) ==> supporters(h, w) == supporters(g, w).union(
            supporters(g, d).insert(d),
        ),
        on_chain(g, y, w) ==> supporters(g, w).disjoint(supporters(g, d).insert(d)),
        !on_chain(g, y, w) ==> supporters(h, w) == supporters(g, w),
{
    assert forall|a: Address| #[trigger] supporters(h, w).contains(a) <==> reaches(g, a, w) || (
    on_chain(g, a, d) && on_chain(g, y, w)) by {
        lemma_reach_in_linked(g, h, d, y, a, w);
    }
    if on_chain(g, y, w) {
        assert(supporters(h, w) =~= supporters(g, w).union(supporters(g, d).insert(d)));
        assert forall|a: Address| supporters(g, w).contains(a) implies !supporters(g, d).insert(
            d,
        ).contains(a) by {
            if supporters(g, d).insert(d).contains(a) {
                lemma_reaches_by_first_link(g, d, w);
                assert(a != d);
                let i = choose|i: nat| i > 0 && #[trigger] hop(g, a, i) == Some(d);
                let j = choose|j: nat| j > 0 && #[trigger] hop(g, a, j) == Some(w);
                if i < j {
                    lemma_no_gap(g, a, i, j);
                } else if i > j {
                    lemma_hop_after(g, a, j, (i - j) as nat);
                    assert(hop(g, w, (i - j) as nat) == Some(d));
                    assert(reaches(g, w, d));
                    if w != y {
                        lemma_reaches_on(g, y, w, d);
                    }
                }
            }
        }
    } else {
        assert(supporters(h, w) =~= supporters(g, w));
    }
}

pub(crate) proof fn lemma_supporters_finite(g: Map<Address, Address>, w: Address)
    requires
        g.dom().finite(),
    ensures
        supporters(g, w).finite(),
{
    assert forall|a: Address| supporters(g, w).contains(a) implies g.dom().contains(a) by {
        lemma_reaches_by_first_link(g, a, w);
    }
    assert(supporters(g, w).subset_of(g.dom()));
    vstd::set_lib::lemma_set_subset_finite(g.dom(), supporters(g, w));
}

} // verus!

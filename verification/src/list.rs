//! Small operations on lists that the contracts share.

use crate::table::Key;
use vstd::prelude::*;

verus! {

/// The list without any occurrence of `x`, in the same order.
pub open spec fn without<A>(s: Seq<A>, x: A) -> Seq<A>
    decreases s.len(),
{
    if s.len() == 0 {
        Seq::empty()
    } else if s.last() == x {
        without(s.drop_last(), x)
    } else {
        without(s.drop_last(), x).push(s.last())
    }
}

/// Whether an element is another than `x`.
pub open spec fn other_than<A>(x: A) -> spec_fn(A) -> bool {
    |y: A| y != x
}

/// What is left after taking an element out keeps its order.
pub proof fn law_without_keeps_the_order<A>(s: Seq<A>, x: A)
    ensures
        without(s, x) == s.filter(other_than(x)),
    decreases s.len(),
{
    reveal(Seq::filter);
    if s.len() > 0 {
        law_without_keeps_the_order(s.drop_last(), x);
    }
}

/// Taking an element out leaves none of it behind and loses nothing else.
pub proof fn law_without_takes_out_exactly<A>(s: Seq<A>, x: A, y: A)
    ensures
        without(s, x).contains(y) <==> s.contains(y) && y != x,
    decreases s.len(),
{
    if s.len() > 0 {
        let rest = s.drop_last();
        law_without_takes_out_exactly(rest, x, y);
        assert(s.contains(y) <==> rest.contains(y) || y == s.last()) by {
            if rest.contains(y) {
                let i = rest.index_of(y);
                assert(s[i] == y);
            }
            if s.contains(y) && y != s.last() {
                let i = s.index_of(y);
                assert(rest[i] == y);
            }
            if y == s.last() {
                assert(s[s.len() - 1] == y);
            }
        }
        if s.last() != x {
            let t = without(rest, x);
            let u = t.push(s.last());
            assert(u.contains(y) <==> t.contains(y) || y == s.last()) by {
                if t.contains(y) {
                    assert(u[t.index_of(y)] == y);
                }
                if u.contains(y) && y != s.last() {
                    assert(t[u.index_of(y)] == y);
                }
                if y == s.last() {
                    assert(u[t.len() as int] == y);
                }
            }
        }
    }
}

/// Whether `x` is on the list.
pub fn holds<K: Key>(v: &Vec<K>, x: &K) -> (r: bool)
    ensures
        r == v@.contains(*x),
{
    let mut i: usize = 0;
    while i < v.len()
        invariant
            i <= v@.len(),
            forall|j: int| 0 <= j < i ==> v@[j] != *x,
        decreases v@.len() - i,
    {
        if v[i].same(x) {
            return true;
        }
        i = i + 1;
    }
    false
}

/// The list with every occurrence of `x` taken out.
pub fn take_out<K: Key>(v: &Vec<K>, x: &K) -> (r: Vec<K>)
    ensures
        r@ == without(v@, *x),
{
    let mut kept: Vec<K> = Vec::new();
    let mut i: usize = 0;
    while i < v.len()
        invariant
            i <= v@.len(),
            kept@ == without(v@.take(i as int), *x),
        decreases v@.len() - i,
    {
        if !v[i].same(x) {
            kept.push(v[i]);
        }
        i = i + 1;
        assert(v@.take(i as int).drop_last() =~= v@.take(i - 1));
    }
    assert(v@.take(i as int) =~= v@);
    kept
}

} // verus!

//! A finite map kept as a list of pairs. The pair nearest the end of the list
//! wins, so every list is the representation of some map.

use crate::host::Address;
use vstd::prelude::*;

verus! {

/// A key that can be compared for equality.
pub trait Key: Copy {
    fn same(&self, other: &Self) -> (r: bool)
        ensures
            r == (*self == *other),
    ;
}

impl Key for u64 {
    fn same(&self, other: &Self) -> (r: bool) {
        *self == *other
    }
}

impl Key for Address {
    fn same(&self, other: &Self) -> (r: bool) {
        *self == *other
    }
}

/// A copy of a list.
pub fn copied<T: Copy>(v: &Vec<T>) -> (r: Vec<T>)
    ensures
        r@ == v@,
{
    let mut r: Vec<T> = Vec::new();
    let mut i: usize = 0;
    while i < v.len()
        invariant
            i <= v@.len(),
            r@ == v@.take(i as int),
        decreases v@.len() - i,
    {
        r.push(v[i]);
        i = i + 1;
        assert(v@.take(i as int) =~= v@.take(i - 1).push(v@[i - 1]));
    }
    assert(v@.take(i as int) =~= v@);
    r
}

/// A map from `K` to `V`.
#[derive(Clone, Debug)]
pub struct Table<K, V> {
    entries: Vec<(K, V)>,
}

/// The map that a list of pairs stands for: later pairs shadow earlier ones.
pub open spec fn pairs_map<K, V: View>(s: Seq<(K, V)>) -> Map<K, V::V>
    decreases s.len(),
{
    if s.len() == 0 {
        Map::empty()
    } else {
        pairs_map(s.drop_last()).insert(s.last().0, s.last().1@)
    }
}

impl<K, V: View> View for Table<K, V> {
    type V = Map<K, V::V>;

    closed spec fn view(&self) -> Map<K, V::V> {
        pairs_map(self.entries@)
    }
}

proof fn lemma_update_last<K, V: View>(s: Seq<(K, V)>, i: int, v: V)
    requires
        0 <= i < s.len(),
        forall|j: int| i < j < s.len() ==> (#[trigger] s[j]).0 != s[i].0,
    ensures
        pairs_map(s.update(i, (s[i].0, v))) == pairs_map(s).insert(s[i].0, v@),
    decreases s.len(),
{
    let k = s[i].0;
    let t = s.update(i, (k, v));
    if i == s.len() - 1 {
        assert(t.drop_last() =~= s.drop_last());
    } else {
        assert(t.drop_last() =~= s.drop_last().update(i, (k, v)));
        lemma_update_last(s.drop_last(), i, v);
        assert(s.drop_last()[i] == s[i]);
        assert(s[s.len() - 1].0 != k);
        assert(t.last() == s.last());
    }
    assert(pairs_map(t) =~= pairs_map(s).insert(k, v@));
}

impl<K: Key, V: View> Table<K, V> {
    /// The table that maps nothing.
    pub fn new() -> (r: Self)
        ensures
            r@ == Map::<K, V::V>::empty(),
    {
        Table { entries: Vec::new() }
    }

    /// Position after the last pair with key `k`, or zero when there is none.
    fn position(&self, k: &K) -> (r: usize)
        ensures
            r <= self.entries@.len(),
            r > 0 ==> self.entries@[r - 1].0 == *k,
            forall|j: int| r <= j < self.entries@.len() ==> (#[trigger] self.entries@[j]).0 != *k,
            r > 0 ==> self@.contains_key(*k) && self@[*k] == self.entries@[r - 1].1@,
            r == 0 ==> !self@.contains_key(*k),
    {
        let ghost s = self.entries@;
        let mut i: usize = self.entries.len();
        assert(s.take(i as int) =~= s);
        while i > 0
            invariant
                s == self.entries@,
                i <= s.len(),
                forall|j: int| i <= j < s.len() ==> (#[trigger] s[j]).0 != *k,
                pairs_map(s).contains_key(*k) == pairs_map(s.take(i as int)).contains_key(*k),
                pairs_map(s).contains_key(*k) ==> pairs_map(s)[*k] == pairs_map(
                    s.take(i as int),
                )[*k],
            decreases i,
        {
            assert(s.take(i as int).drop_last() =~= s.take(i - 1));
            assert(s.take(i as int).last() == s[i - 1]);
            if self.entries[i - 1].0.same(k) {
                return i;
            }
            i = i - 1;
        }
        assert(s.take(0) =~= Seq::empty());
        0
    }

    /// The value at `k`, if there is one.
    pub fn get(&self, k: &K) -> (r: Option<&V>)
        ensures
            match r {
                Some(v) => self@.contains_key(*k) && v@ == self@[*k],
                None => !self@.contains_key(*k),
            },
    {
        let p: usize = self.position(k);
        if p == 0 {
            None
        } else {
            Some(&self.entries[p - 1].1)
        }
    }

    /// Whether `k` has a value.
    pub fn has(&self, k: &K) -> (r: bool)
        ensures
            r == self@.contains_key(*k),
    {
        self.position(k) > 0
    }

    /// Gives `k` the value `v`, in place of any it had.
    pub fn set(&mut self, k: K, v: V)
        ensures
            final(self)@ == old(self)@.insert(k, v@),
    {
        let p: usize = self.position(&k);
        if p == 0 {
            self.entries.push((k, v));
            proof {
                assert(self.entries@.drop_last() =~= old(self).entries@);
            }
        } else {
            proof {
                lemma_update_last(self.entries@, p - 1, v);
            }
            self.entries.set(p - 1, (k, v));
        }
    }
}

/// The map of a list of pairs has finitely many keys.
proof fn lemma_pairs_finite<K, V: View>(s: Seq<(K, V)>)
    ensures
        pairs_map(s).dom().finite(),
    decreases s.len(),
{
    if s.len() > 0 {
        lemma_pairs_finite(s.drop_last());
    }
}

impl<K: Key, V: View> Table<K, V> {
    /// Whether one of the first `n` pairs has key `k`.
    fn among_first(&self, n: usize, k: &K) -> (r: bool)
        requires
            n <= self.entries@.len(),
        ensures
            r == pairs_map(self.entries@.take(n as int)).contains_key(*k),
    {
        let ghost s = self.entries@;
        let mut i: usize = 0;
        while i < n
            invariant
                s == self.entries@,
                i <= n <= s.len(),
                !pairs_map(s.take(i as int)).contains_key(*k),
            decreases n - i,
        {
            assert(s.take(i + 1).drop_last() =~= s.take(i as int));
            if self.entries[i].0.same(k) {
                proof {
                    lemma_keys_stay(s, i + 1, n as int, *k);
                }
                return true;
            }
            i = i + 1;
        }
        false
    }

    /// How many keys have a value.
    pub fn len(&self) -> (r: usize)
        ensures
            self@.dom().finite(),
            r == self@.dom().len(),
    {
        let ghost s = self.entries@;
        let mut count: usize = 0;
        let mut i: usize = 0;
        while i < self.entries.len()
            invariant
                s == self.entries@,
                count <= i <= s.len(),
                count == pairs_map(s.take(i as int)).dom().len(),
            decreases s.len() - i,
        {
            proof {
                lemma_pairs_finite(s.take(i as int));
                assert(s.take(i + 1).drop_last() =~= s.take(i as int));
            }
            if !self.among_first(i, &self.entries[i].0) {
                count = count + 1;
            } else {
                assert(pairs_map(s.take(i + 1)).dom() =~= pairs_map(s.take(i as int)).dom());
            }
            i = i + 1;
        }
        proof {
            lemma_pairs_finite(s);
            assert(s.take(i as int) =~= s);
        }
        count
    }
}

proof fn lemma_keys_stay<K, V: View>(s: Seq<(K, V)>, i: int, n: int, k: K)
    requires
        0 <= i <= n <= s.len(),
        pairs_map(s.take(i)).contains_key(k),
    ensures
        pairs_map(s.take(n)).contains_key(k),
    decreases n - i,
{
    if i < n {
        assert(s.take(i + 1).drop_last() =~= s.take(i));
        lemma_keys_stay(s, i + 1, n, k);
    }
}

impl<K: Key, V: View + Copy> Table<K, V> {
    /// A table of the same values.
    pub fn copy(&self) -> (r: Self)
        ensures
            r@ == self@,
    {
        Table { entries: copied(&self.entries) }
    }

    /// Takes the value of `k` away, if it has one.
    pub fn remove(&mut self, k: &K)
        ensures
            final(self)@ == old(self)@.remove(*k),
    {
        let ghost s = self.entries@;
        let mut kept: Vec<(K, V)> = Vec::new();
        let mut i: usize = 0;
        assert(pairs_map(kept@) =~= pairs_map(s.take(0)).remove(*k));
        while i < self.entries.len()
            invariant
                s == self.entries@,
                i <= s.len(),
                pairs_map(kept@) == pairs_map(s.take(i as int)).remove(*k),
            decreases s.len() - i,
        {
            let e: (K, V) = self.entries[i];
            assert(s.take(i + 1).drop_last() =~= s.take(i as int));
            if !e.0.same(k) {
                let ghost before = kept@;
                kept.push(e);
                assert(kept@.drop_last() =~= before);
            }
            assert(pairs_map(kept@) =~= pairs_map(s.take(i + 1)).remove(*k));
            i = i + 1;
        }
        assert(s.take(i as int) =~= s);
        self.entries = kept;
    }
}

} // verus!

//! Who delegates to whom, and the weight that flows along.
//!
//! Weight flows to the end of a chain, to whoever delegates to nobody, however long
//! the chain is. There it is kept as the tally of whoever
//! votes with it; on the way it is noted as passed on, so that it can follow when
//! a link in the middle is changed.

use crate::host::Address;
use crate::iln_governance::chain::{hop, lemma_hop_after, lemma_reached_in_time, reaches};
use crate::table::Table;
use vstd::prelude::*;

verus! {

/// The links and what flows along them.
#[derive(Clone, Debug)]
pub struct Links {
    /// Whom an address delegates to.
    pub delegates: Table<Address, Address>,
    /// Weight that comes to an address, transitively, and stays there.
    pub delegated: Table<Address, i128>,
    /// Weight that comes to an address, transitively, and is passed on.
    pub passed_on: Table<Address, i128>,
}

/// The links as mathematical maps.
#[verifier::ext_equal]
pub struct LinksView {
    pub delegates: Map<Address, Address>,
    pub delegated: Map<Address, i128>,
    pub passed_on: Map<Address, i128>,
}

impl View for Links {
    type V = LinksView;

    open spec fn view(&self) -> LinksView {
        LinksView {
            delegates: self.delegates@,
            delegated: self.delegated@,
            passed_on: self.passed_on@,
        }
    }
}

/// The number kept for `who`; zero where none is.
pub open spec fn kept(tallies: Map<Address, i128>, who: Address) -> i128 {
    if tallies.contains_key(who) {
        tallies[who]
    } else {
        0
    }
}

/// The tallies after that of `who` became `n`. One that is not positive is not
/// kept.
pub open spec fn kept_as(tallies: Map<Address, i128>, who: Address, n: int) -> Map<Address, i128> {
    if n <= 0 {
        tallies.remove(who)
    } else {
        tallies.insert(who, n as i128)
    }
}

/// Whether `n` can be held as a weight.
pub open spec fn is_weight(n: int) -> bool {
    i128::MIN <= n <= i128::MAX
}

impl LinksView {
    /// Whom an address delegates to.
    pub open spec fn delegate_of(self, who: Address) -> Option<Address> {
        if self.delegates.contains_key(who) {
            Some(self.delegates[who])
        } else {
            None
        }
    }

    /// The weight that comes to an address: what is passed on by one who delegates,
    /// what stays with one who does not.
    pub open spec fn incoming(self, who: Address) -> i128 {
        if self.delegates.contains_key(who) {
            kept(self.passed_on, who)
        } else {
            kept(self.delegated, who)
        }
    }

    /// How many delegations there are.
    pub open spec fn count(self) -> nat {
        self.delegates.dom().len()
    }

    /// The links after `delta` was added to the tally of `who`.
    pub open spec fn tally_adjusted(self, who: Address, delta: int) -> LinksView {
        LinksView {
            delegated: kept_as(self.delegated, who, kept(self.delegated, who) + delta),
            ..self
        }
    }

    /// The links after `delta` was added to what `who` passes on.
    pub open spec fn passage_adjusted(self, who: Address, delta: int) -> LinksView {
        LinksView {
            passed_on: kept_as(self.passed_on, who, kept(self.passed_on, who) + delta),
            ..self
        }
    }

    /// The links after `delta` has flowed from `from` to the end of the chain: it is
    /// noted with everyone who passes it on, and added to the tally at the end.
    /// At most `hops` links are followed.
    pub open spec fn flowed(self, from: Address, delta: int, hops: nat) -> LinksView
        decreases hops,
    {
        if hops > 0 && self.delegates.contains_key(from) {
            self.passage_adjusted(from, delta).flowed(
                self.delegates[from],
                delta,
                (hops - 1) as nat,
            )
        } else {
            self.tally_adjusted(from, delta)
        }
    }

    /// Whether the sums that [`LinksView::flowed`] makes can be held.
    pub open spec fn can_flow(self, from: Address, delta: int, hops: nat) -> bool
        decreases hops,
    {
        if hops > 0 && self.delegates.contains_key(from) {
            is_weight(kept(self.passed_on, from) + delta) && self.passage_adjusted(
                from,
                delta,
            ).can_flow(self.delegates[from], delta, (hops - 1) as nat)
        } else {
            is_weight(kept(self.delegated, from) + delta)
        }
    }

    /// The weight that `who` brings along: what they hold, and what comes to them.
    pub open spec fn brought_by(self, who: Address, balance: i128) -> int {
        balance + self.incoming(who)
    }

    /// The links after `who` was cut loose: what they bring no longer flows on, and
    /// what comes to them stays.
    pub open spec fn cut(self, who: Address, balance: i128) -> LinksView {
        if self.delegates.contains_key(who) {
            let drained = self.flowed(
                self.delegates[who],
                -self.brought_by(who, balance),
                self.count(),
            );
            LinksView {
                delegates: drained.delegates.remove(who),
                delegated: kept_as(drained.delegated, who, kept(drained.passed_on, who) as int),
                passed_on: drained.passed_on.remove(who),
            }
        } else {
            self
        }
    }

    /// Whether the sums that [`LinksView::cut`] makes can be held.
    pub open spec fn can_cut(self, who: Address, balance: i128) -> bool {
        self.delegates.contains_key(who) ==> {
            &&& is_weight(self.brought_by(who, balance))
            &&& is_weight(-self.brought_by(who, balance))
            &&& self.can_flow(
                self.delegates[who],
                -self.brought_by(who, balance),
                self.count(),
            )
        }
    }

    /// The links after `who`, who is loose, was tied to `to`: what they bring flows
    /// on, and so does what comes to them.
    pub open spec fn tied(self, who: Address, balance: i128, to: Address) -> LinksView {
        let filled = self.flowed(to, self.brought_by(who, balance), self.count());
        LinksView {
            delegates: filled.delegates.insert(who, to),
            delegated: filled.delegated.remove(who),
            passed_on: kept_as(filled.passed_on, who, kept(filled.delegated, who) as int),
        }
    }

    /// Whether the sums that [`LinksView::tied`] makes can be held.
    pub open spec fn can_tie(self, who: Address, balance: i128, to: Address) -> bool {
        &&& is_weight(self.brought_by(who, balance))
        &&& self.can_flow(to, self.brought_by(who, balance), self.count())
    }
}

/// A flow leaves the links themselves as they are.
pub(crate) proof fn lemma_flow_keeps_delegates(l: LinksView, from: Address, delta: int, hops: nat)
    ensures
        l.flowed(from, delta, hops).delegates == l.delegates,
    decreases hops,
{
    if hops > 0 && l.delegates.contains_key(from) {
        lemma_flow_keeps_delegates(
            l.passage_adjusted(from, delta),
            l.delegates[from],
            delta,
            (hops - 1) as nat,
        );
    }
}

impl Links {
    /// No links.
    pub fn new() -> (r: Links)
        ensures
            r@ == (LinksView {
                delegates: Map::empty(),
                delegated: Map::empty(),
                passed_on: Map::empty(),
            }),
    {
        Links { delegates: Table::new(), delegated: Table::new(), passed_on: Table::new() }
    }

    /// The same links, for trying something out.
    pub(crate) fn copy(&self) -> (r: Links)
        ensures
            r@ == self@,
    {
        Links {
            delegates: self.delegates.copy(),
            delegated: self.delegated.copy(),
            passed_on: self.passed_on.copy(),
        }
    }

    /// Whom an address delegates to.
    pub fn delegate_of(&self, who: &Address) -> (r: Option<Address>)
        ensures
            r == self@.delegate_of(*who),
    {
        match self.delegates.get(who) {
            Some(delegate) => Some(*delegate),
            None => None,
        }
    }

    /// Whether delegations lead from `from` to `target`.
    pub(crate) fn leads_to(&self, from: &Address, target: &Address) -> (r: bool)
        ensures
            r == reaches(self@.delegates, *from, *target),
    {
        let ghost g = self@.delegates;
        let count: usize = self.delegates.len();
        let mut current: Address = *from;
        let mut hops: usize = 0;
        while hops < count
            invariant
                g == self@.delegates,
                hops <= count,
                hop(g, *from, hops as nat) == Some(current),
                forall|k: nat| 0 < k <= hops ==> #[trigger] hop(g, *from, k) != Some(*target),
            decreases count - hops,
        {
            match self.delegate_of(&current) {
                Some(next) => {
                    assert(hop(g, *from, (hops + 1) as nat) == Some(next));
                    if next == *target {
                        return true;
                    }
                    current = next;
                    hops = hops + 1;
                },
                None => {
                    proof {
                        assert(hop(g, *from, (hops + 1) as nat) is None);
                        assert forall|k: nat| k > 0 implies #[trigger] hop(g, *from, k) != Some(
                            *target,
                        ) by {
                            if k > hops {
                                lemma_hop_after(
                                    g,
                                    *from,
                                    (hops + 1) as nat,
                                    (k - hops - 1) as nat,
                                );
                            }
                        }
                    }
                    return false;
                },
            }
        }
        proof {
            if reaches(g, *from, *target) {
                lemma_reached_in_time(g, *from, *target);
            }
        }
        false
    }
}

/// The number kept for `who`; zero where none is.
pub(crate) fn look_up(tallies: &Table<Address, i128>, who: &Address) -> (r: i128)
    ensures
        r == kept(tallies@, *who),
{
    match tallies.get(who) {
        Some(n) => *n,
        None => 0,
    }
}

/// Keeps `n` for `who`, if it is positive.
fn keep(tallies: &mut Table<Address, i128>, who: &Address, n: i128)
    ensures
        final(tallies)@ == kept_as(old(tallies)@, *who, n as int),
{
    if n <= 0 {
        tallies.remove(who);
    } else {
        tallies.set(*who, n);
    }
}

impl Links {
    /// Adds `delta`, which may be negative, to the tally of `addr`, if the sum can
    /// be held.
    fn adjust_delegated_to_me(&mut self, addr: &Address, delta: i128) -> (r: bool)
        ensures
            r == is_weight(kept(old(self)@.delegated, *addr) + delta),
            r ==> final(self)@ == old(self)@.tally_adjusted(*addr, delta as int),
    {
        match look_up(&self.delegated, addr).checked_add(delta) {
            Some(updated) => {
                keep(&mut self.delegated, addr, updated);
                true
            },
            None => false,
        }
    }

    /// Adds `delta`, which may be negative, to what `addr` passes on, if the sum can
    /// be held.
    fn adjust_passed_on(&mut self, addr: &Address, delta: i128) -> (r: bool)
        ensures
            r == is_weight(kept(old(self)@.passed_on, *addr) + delta),
            r ==> final(self)@ == old(self)@.passage_adjusted(*addr, delta as int),
    {
        match look_up(&self.passed_on, addr).checked_add(delta) {
            Some(updated) => {
                keep(&mut self.passed_on, addr, updated);
                true
            },
            None => false,
        }
    }

    /// Lets `delta` flow from `from` to the end of the chain, if the sums can be
    /// held.
    fn flow(&mut self, from: &Address, delta: i128) -> (r: bool)
        ensures
            r == old(self)@.can_flow(*from, delta as int, old(self)@.count()),
            r ==> final(self)@ == old(self)@.flowed(*from, delta as int, old(self)@.count()),
    {
        let ghost start = self@;
        let count: usize = self.delegates.len();
        let mut current: Address = *from;
        let mut hops: usize = 0;
        while hops < count
            invariant
                hops <= count,
                start == old(self)@,
                count == start.count(),
                self@.delegates == start.delegates,
                self@.can_flow(current, delta as int, (count - hops) as nat) == start.can_flow(
                    *from,
                    delta as int,
                    count as nat,
                ),
                self@.flowed(current, delta as int, (count - hops) as nat) == start.flowed(
                    *from,
                    delta as int,
                    count as nat,
                ),
            decreases count - hops,
        {
            match self.delegate_of(&current) {
                Some(next) => {
                    if !self.adjust_passed_on(&current, delta) {
                        return false;
                    }
                    current = next;
                    hops = hops + 1;
                },
                None => {
                    return self.adjust_delegated_to_me(&current, delta);
                },
            }
        }
        self.adjust_delegated_to_me(&current, delta)
    }

    /// Cuts `who` loose, if the sums can be held.
    pub(crate) fn cut(&mut self, who: &Address, balance: i128) -> (r: bool)
        ensures
            r == old(self)@.can_cut(*who, balance),
            r ==> final(self)@ == old(self)@.cut(*who, balance),
    {
        let old_delegate: Address = match self.delegate_of(who) {
            Some(old_delegate) => old_delegate,
            None => return true,
        };
        let brought: i128 = match balance.checked_add(look_up(&self.passed_on, who)) {
            Some(brought) => brought,
            None => return false,
        };
        if brought == i128::MIN || !self.flow(&old_delegate, -brought) {
            return false;
        }
        let stays: i128 = look_up(&self.passed_on, who);
        self.delegates.remove(who);
        self.passed_on.remove(who);
        keep(&mut self.delegated, who, stays);
        true
    }

    /// Ties `who`, who is loose, to `to`, if the sums can be held.
    pub(crate) fn tie(&mut self, who: &Address, balance: i128, to: &Address) -> (r: bool)
        requires
            !old(self)@.delegates.contains_key(*who),
        ensures
            r == old(self)@.can_tie(*who, balance, *to),
            r ==> final(self)@ == old(self)@.tied(*who, balance, *to),
    {
        let brought: i128 = match balance.checked_add(look_up(&self.delegated, who)) {
            Some(brought) => brought,
            None => return false,
        };
        if !self.flow(to, brought) {
            return false;
        }
        let passes: i128 = look_up(&self.delegated, who);
        self.delegates.set(*who, *to);
        self.delegated.remove(who);
        keep(&mut self.passed_on, who, passes);
        true
    }
}

} // verus!

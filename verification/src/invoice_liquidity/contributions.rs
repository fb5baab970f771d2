//! The list of contributions to an invoice: who put in how much, what each gets
//! back, and what each gets out.

use crate::host::Address;
use crate::invoice_liquidity::arith::{
    discounted, in_i128, lemma_net_fits, net_of, share, share_of,
};
use crate::invoice_liquidity::env::{Env, HostCall};
use vstd::prelude::*;

verus! {

/// Position of the first contribution of `who`; the length where there is none.
pub open spec fn first_entry(list: Seq<(Address, i128)>, who: Address) -> int
    decreases list.len(),
{
    if list.len() == 0 || list[0].0 == who {
        0
    } else {
        1 + first_entry(list.skip(1), who)
    }
}

/// Whether `who` has contributed.
pub open spec fn contributes(list: Seq<(Address, i128)>, who: Address) -> bool {
    exists|i: int| 0 <= i < list.len() && (#[trigger] list[i]).0 == who
}

/// What `who` has contributed so far.
pub open spec fn contribution(list: Seq<(Address, i128)>, who: Address) -> int {
    if first_entry(list, who) < list.len() {
        list[first_entry(list, who)].1 as int
    } else {
        0
    }
}

/// The contributions after `who` put in `amount`: on top of an earlier
/// contribution of theirs, else as a new one at the end.
pub open spec fn contributed(list: Seq<(Address, i128)>, who: Address, amount: i128) -> Seq<
    (Address, i128),
> {
    let p = first_entry(list, who);
    if p < list.len() {
        list.update(p, (who, (list[p].1 + amount) as i128))
    } else {
        list.push((who, amount))
    }
}

/// Sum of the contributions.
pub open spec fn total(list: Seq<(Address, i128)>) -> int
    decreases list.len(),
{
    if list.len() == 0 {
        0
    } else {
        total(list.drop_last()) + list.last().1
    }
}

/// Sum of the refunds of the contributions at discount `rate`.
pub open spec fn refund_total(list: Seq<(Address, i128)>, rate: int) -> int
    decreases list.len(),
{
    if list.len() == 0 {
        0
    } else {
        refund_total(list.drop_last(), rate) + net_of(list.last().1 as int, rate)
    }
}

/// Whether the refunds can be added up one by one.
pub open spec fn refunds_add_up(list: Seq<(Address, i128)>, rate: int) -> bool {
    forall|k: int|
        0 <= k <= list.len() ==> in_i128(#[trigger] refund_total(list.take(k), rate))
}

/// The transfers that give every contributor back what they paid: their
/// contribution less the discount.
pub open spec fn refund_calls(
    list: Seq<(Address, i128)>,
    rate: int,
    token: Address,
    contract: Address,
) -> Seq<HostCall>
    decreases list.len(),
{
    if list.len() == 0 {
        Seq::empty()
    } else {
        refund_calls(list.drop_last(), rate, token, contract).push(
            HostCall::Transfer {
                token,
                from: contract,
                to: list.last().0,
                amount: net_of(list.last().1 as int, rate) as i128,
            },
        )
    }
}

/// The transfers that hand out `pot` in proportion to the contributions to
/// `whole`. Nothing is transferred where the share is not positive.
pub open spec fn payout_calls(
    list: Seq<(Address, i128)>,
    pot: int,
    whole: int,
    token: Address,
    contract: Address,
) -> Seq<HostCall>
    decreases list.len(),
{
    if list.len() == 0 {
        Seq::empty()
    } else {
        let before = payout_calls(list.drop_last(), pot, whole, token, contract);
        let amount = share_of(pot, list.last().1 as int, whole);
        if amount > 0 {
            before.push(
                HostCall::Transfer {
                    token,
                    from: contract,
                    to: list.last().0,
                    amount: amount as i128,
                },
            )
        } else {
            before
        }
    }
}

pub(crate) proof fn lemma_first_entry(list: Seq<(Address, i128)>, who: Address, p: int)
    requires
        0 <= p <= list.len(),
        forall|j: int| 0 <= j < p ==> (#[trigger] list[j]).0 != who,
        p < list.len() ==> list[p].0 == who,
    ensures
        first_entry(list, who) == p,
    decreases list.len(),
{
    if list.len() > 0 && list[0].0 != who {
        assert forall|j: int| 0 <= j < p - 1 implies (#[trigger] list.skip(1)[j]).0 != who by {
            assert(list.skip(1)[j] == list[j + 1]);
        }
        lemma_first_entry(list.skip(1), who, p - 1);
    }
}

/// A contributor has an entry, and that entry is theirs.
pub proof fn law_contributors_have_an_entry(list: Seq<(Address, i128)>, who: Address)
    ensures
        0 <= first_entry(list, who) <= list.len(),
        contributes(list, who) <==> first_entry(list, who) < list.len(),
        first_entry(list, who) < list.len() ==> list[first_entry(list, who)].0 == who,
    decreases list.len(),
{
    if list.len() > 0 && list[0].0 != who {
        law_contributors_have_an_entry(list.skip(1), who);
        let p = first_entry(list.skip(1), who);
        if p < list.skip(1).len() {
            assert(list[p + 1] == list.skip(1)[p]);
        }
        if contributes(list, who) {
            let i = choose|i: int| 0 <= i < list.len() && (#[trigger] list[i]).0 == who;
            assert(list.skip(1)[i - 1] == list[i]);
        }
    }
}

/// Funding adds exactly the amount to the sum of the contributions.
pub proof fn law_contributions_add_up(list: Seq<(Address, i128)>, who: Address, amount: i128)
    requires
        in_i128(contribution(list, who) + amount),
    ensures
        total(contributed(list, who, amount)) == total(list) + amount,
{
    law_contributors_have_an_entry(list, who);
    let p = first_entry(list, who);
    if p < list.len() {
        lemma_total_update(list, p, (who, (list[p].1 + amount) as i128));
    } else {
        assert(list.push((who, amount)).drop_last() =~= list);
    }
}

proof fn lemma_total_update(list: Seq<(Address, i128)>, p: int, e: (Address, i128))
    requires
        0 <= p < list.len(),
    ensures
        total(list.update(p, e)) == total(list) - list[p].1 + e.1,
    decreases list.len(),
{
    let next = list.update(p, e);
    if p == list.len() - 1 {
        assert(next.drop_last() =~= list.drop_last());
    } else {
        lemma_total_update(list.drop_last(), p, e);
        assert(next.drop_last() =~= list.drop_last().update(p, e));
    }
}

/// Funding leaves the contributions of everyone else as they were.
pub proof fn law_contributions_of_others_stay(
    list: Seq<(Address, i128)>,
    who: Address,
    amount: i128,
    other: Address,
)
    requires
        other != who,
    ensures
        contribution(contributed(list, who, amount), other) == contribution(list, other),
{
    law_contributors_have_an_entry(list, who);
    law_contributors_have_an_entry(list, other);
    let next = contributed(list, who, amount);
    let q = first_entry(list, other);
    assert forall|j: int| 0 <= j < q implies (#[trigger] next[j]).0 != other by {
        lemma_before_first(list, other, j);
    }
    if q < list.len() {
        lemma_first_entry(next, other, q);
    } else if next.len() > list.len() {
        lemma_first_entry(next, other, next.len() as int);
    } else {
        lemma_first_entry(next, other, q);
    }
}

pub(crate) proof fn lemma_before_first(list: Seq<(Address, i128)>, who: Address, j: int)
    requires
        0 <= j < first_entry(list, who),
        j < list.len(),
    ensures
        list[j].0 != who,
    decreases list.len(),
{
    if j > 0 {
        lemma_before_first(list.skip(1), who, j - 1);
        assert(list.skip(1)[j - 1] == list[j]);
    }
}

/// Position of the first contribution of `who`; the length where there is none.
pub(crate) fn find_entry(list: &Vec<(Address, i128)>, who: &Address) -> (r: usize)
    ensures
        r == first_entry(list@, *who),
        r <= list@.len(),
{
    let mut i: usize = 0;
    while i < list.len()
        invariant
            i <= list@.len(),
            forall|j: int| 0 <= j < i ==> (#[trigger] list@[j]).0 != *who,
        decreases list@.len() - i,
    {
        if list[i].0 == *who {
            proof {
                lemma_first_entry(list@, *who, i as int);
            }
            return i;
        }
        i = i + 1;
    }
    proof {
        lemma_first_entry(list@, *who, i as int);
    }
    i
}

/// Gives every contributor back what they paid.
pub(crate) fn refund_all(env: &mut Env, list: &Vec<(Address, i128)>, rate: u32, token: Address)
    ensures
        final(env)@ == old(env)@.called_all(
            refund_calls(list@, rate as int, token, old(env)@.contract),
        ),
{
    let contract: Address = env.contract;
    let ghost before = env@;
    let mut i: usize = 0;
    assert(env@.calls =~= before.calls + refund_calls(list@.take(0), rate as int, token, contract));
    while i < list.len()
        invariant
            i <= list@.len(),
            contract == before.contract,
            env@ == before.called_all(
                refund_calls(list@.take(i as int), rate as int, token, contract),
            ),
        decreases list@.len() - i,
    {
        let refund: i128 = discounted(list[i].1, rate as i128);
        env.transfer(token, contract, list[i].0, refund);
        i = i + 1;
        proof {
            lemma_net_fits(list@[i - 1].1 as int, rate as int);
            assert(list@.take(i as int).drop_last() =~= list@.take(i - 1));
            assert(env@.calls =~= before.calls + refund_calls(
                list@.take(i as int),
                rate as int,
                token,
                contract,
            ));
        }
    }
    assert(list@.take(i as int) =~= list@);
}

/// What [`refund_all`] pays out in all.
pub(crate) fn sum_of_refunds(list: &Vec<(Address, i128)>, rate: u32) -> (r: i128)
    requires
        refunds_add_up(list@, rate as int),
    ensures
        r == refund_total(list@, rate as int),
{
    let mut sum: i128 = 0;
    let mut i: usize = 0;
    while i < list.len()
        invariant
            i <= list@.len(),
            refunds_add_up(list@, rate as int),
            sum == refund_total(list@.take(i as int), rate as int),
        decreases list@.len() - i,
    {
        let refund: i128 = discounted(list[i].1, rate as i128);
        proof {
            assert(list@.take(i + 1).drop_last() =~= list@.take(i as int));
            assert(in_i128(refund_total(list@.take(i + 1), rate as int)));
        }
        sum = sum + refund;
        i = i + 1;
    }
    assert(list@.take(i as int) =~= list@);
    sum
}

/// Hands out `pot` in proportion to the contributions.
pub(crate) fn pay_out_all(
    env: &mut Env,
    list: &Vec<(Address, i128)>,
    pot: i128,
    whole: i128,
    token: Address,
)
    requires
        whole > 0,
    ensures
        final(env)@ == old(env)@.called_all(
            payout_calls(list@, pot as int, whole as int, token, old(env)@.contract),
        ),
{
    let contract: Address = env.contract;
    let ghost before = env@;
    let mut i: usize = 0;
    assert(env@.calls =~= before.calls + payout_calls(
        list@.take(0),
        pot as int,
        whole as int,
        token,
        contract,
    ));
    while i < list.len()
        invariant
            i <= list@.len(),
            whole > 0,
            contract == before.contract,
            env@ == before.called_all(
                payout_calls(list@.take(i as int), pot as int, whole as int, token, contract),
            ),
        decreases list@.len() - i,
    {
        let amount: i128 = share(pot, list[i].1, whole);
        if amount > 0 {
            env.transfer(token, contract, list[i].0, amount);
        }
        i = i + 1;
        proof {
            assert(list@.take(i as int).drop_last() =~= list@.take(i - 1));
            assert(env@.calls =~= before.calls + payout_calls(
                list@.take(i as int),
                pot as int,
                whole as int,
                token,
                contract,
            ));
        }
    }
    assert(list@.take(i as int) =~= list@);
}

} // verus!

//! Where the money goes: what is collected covers what is paid out.

use crate::host::Address;
use crate::invoice_liquidity::arith::{
    in_i128, law_discount_is_within_the_amount, lemma_net_fits, net_of, product, share_of,
};
use crate::invoice_liquidity::contributions::{
    payout_calls, refund_calls, refund_total, refunds_add_up, total,
};
use crate::invoice_liquidity::env::{EnvView, HostCall};
use crate::invoice_liquidity::funding::{fund_fits, fund_gate};
use crate::invoice_liquidity::laws::{
    books_sound, lemma_entry_of_total, lemma_no_debts_in_part, lemma_part_of_total,
    lemma_total_nonnegative, no_debts,
};
use crate::invoice_liquidity::model::{or_default, volume_fits};
use crate::invoice_liquidity::settlement::{
    pay_fits, pay_gate, pay_refusal, settlement_fee, settlement_pot, settles,
};
use vstd::prelude::*;

verus! {

/// Sum of the amounts that a row of host calls transfers.
pub open spec fn sum_transferred(calls: Seq<HostCall>) -> int
    decreases calls.len(),
{
    if calls.len() == 0 {
        0
    } else {
        let before = sum_transferred(calls.drop_last());
        match calls.last() {
            HostCall::Transfer { amount, .. } => before + amount,
            _ => before,
        }
    }
}

/// Whether a host call moves money.
pub open spec fn any_transfer() -> spec_fn(HostCall) -> bool {
    |call: HostCall| call is Transfer
}

/// Whether a host call moves money from `who` to somebody else.
pub open spec fn transfer_out_of(who: Address) -> spec_fn(HostCall) -> bool {
    |call: HostCall|
        match call {
            HostCall::Transfer { from, to, .. } => from == who && to != who,
            _ => false,
        }
}

/// Whether a host call moves money from somebody else to `who`.
pub open spec fn transfer_into(who: Address) -> spec_fn(HostCall) -> bool {
    |call: HostCall|
        match call {
            HostCall::Transfer { from, to, .. } => to == who && from != who,
            _ => false,
        }
}

/// What a row of host calls brings `who` of a token, less what it takes from them.
pub open spec fn received(calls: Seq<HostCall>, token: Address, who: Address) -> int
    decreases calls.len(),
{
    if calls.len() == 0 {
        0
    } else {
        received(calls.drop_last(), token, who) + gain(calls.last(), token, who)
    }
}

/// What one host call brings `who` of a token, less what it takes from them.
pub open spec fn gain(call: HostCall, token: Address, who: Address) -> int {
    match call {
        HostCall::Transfer { token: moved, from, to, amount } => if moved == token {
            (if to == who {
                amount as int
            } else {
                0
            }) - (if from == who {
                amount as int
            } else {
                0
            })
        } else {
            0
        },
        _ => 0,
    }
}

pub(crate) proof fn lemma_filter_push(
    calls: Seq<HostCall>,
    call: HostCall,
    which: spec_fn(HostCall) -> bool,
)
    ensures
        calls.push(call).filter(which) == (if which(call) {
            calls.filter(which).push(call)
        } else {
            calls.filter(which)
        }),
{
    reveal(Seq::filter);
    assert(calls.push(call).drop_last() =~= calls);
}

pub(crate) proof fn lemma_received_push(
    calls: Seq<HostCall>,
    call: HostCall,
    token: Address,
    who: Address,
)
    ensures
        received(calls.push(call), token, who) == received(calls, token, who) + gain(
            call,
            token,
            who,
        ),
{
    assert(calls.push(call).drop_last() =~= calls);
}

pub(crate) proof fn lemma_received_add(
    a: Seq<HostCall>,
    b: Seq<HostCall>,
    token: Address,
    who: Address,
)
    ensures
        received(a + b, token, who) == received(a, token, who) + received(b, token, who),
    decreases b.len(),
{
    if b.len() == 0 {
        assert(a + b =~= a);
    } else {
        lemma_received_add(a, b.drop_last(), token, who);
        assert((a + b).drop_last() =~= a + b.drop_last());
    }
}

/// Two parts of a contribution cost no less than the whole at once: rounding never
/// works against the contract.
pub proof fn law_parts_cost_no_less_than_the_whole(a: int, b: int, rate: int)
    requires
        0 <= a,
        0 <= b,
        0 <= rate,
        (a + b) * rate <= i128::MAX,
    ensures
        net_of(a + b, rate) <= net_of(a, rate) + net_of(b, rate),
{
    assert((a + b) * rate == a * rate + b * rate) by (nonlinear_arith);
    assert(0 <= a * rate) by (nonlinear_arith)
        requires
            0 <= a,
            0 <= rate,
    ;
    assert(0 <= b * rate) by (nonlinear_arith)
        requires
            0 <= b,
            0 <= rate,
    ;
}

/// The contributions, each less its discount, cover the whole less its discount:
/// what the funders pay in is enough to pay the freelancer.
pub proof fn law_contributions_cover_the_payout(list: Seq<(Address, i128)>, rate: int)
    requires
        no_debts(list),
        0 <= rate,
        total(list) * rate <= i128::MAX,
    ensures
        net_of(total(list), rate) <= refund_total(list, rate),
    decreases list.len(),
{
    if list.len() > 0 {
        let rest = list.drop_last();
        let last = list.last().1 as int;
        lemma_no_debts_in_part(list, list.len() - 1);
        lemma_total_nonnegative(rest);
        assert(total(rest) * rate <= total(list) * rate) by (nonlinear_arith)
            requires
                total(rest) <= total(list),
                0 <= rate,
        ;
        law_contributions_cover_the_payout(rest, rate);
        law_parts_cost_no_less_than_the_whole(total(rest), last, rate);
    } else {
        assert(0 * rate == 0) by (nonlinear_arith);
    }
}

/// The refunds add up to what the transfers say.
pub proof fn law_refunds_are_what_is_announced(
    list: Seq<(Address, i128)>,
    rate: int,
    token: Address,
    contract: Address,
)
    requires
        0 <= rate,
    ensures
        sum_transferred(refund_calls(list, rate, token, contract)) == refund_total(list, rate),
    decreases list.len(),
{
    if list.len() > 0 {
        law_refunds_are_what_is_announced(list.drop_last(), rate, token, contract);
        lemma_net_fits(list.last().1 as int, rate);
        assert(refund_calls(list, rate, token, contract).drop_last() =~= refund_calls(
            list.drop_last(),
            rate,
            token,
            contract,
        ));
    }
}

/// No refund is more than the contribution, for rates up to the whole.
pub proof fn law_refunds_never_exceed_contributions(list: Seq<(Address, i128)>, rate: int)
    requires
        no_debts(list),
        0 <= rate <= 10_000,
    ensures
        0 <= refund_total(list, rate) <= total(list),
    decreases list.len(),
{
    if list.len() > 0 {
        let rest = list.drop_last();
        lemma_no_debts_in_part(list, list.len() - 1);
        law_refunds_never_exceed_contributions(rest, rate);
        law_discount_is_within_the_amount(list.last().1 as int, rate);
    }
}

pub(crate) proof fn lemma_share_bound(pot: int, part: int, whole: int)
    requires
        0 <= pot <= i128::MAX,
        0 <= part <= whole <= i128::MAX,
        0 < whole,
    ensures
        0 <= share_of(pot, part, whole),
        share_of(pot, part, whole) * whole <= pot * part,
        share_of(pot, part, whole) <= pot,
{
    let n = product(pot, part);
    assert(0 <= pot * part) by (nonlinear_arith)
        requires
            0 <= pot,
            0 <= part,
    ;
    assert(pot * part <= pot * whole) by (nonlinear_arith)
        requires
            0 <= pot,
            part <= whole,
    ;
    assert(n / whole >= 0 && (n / whole) * whole <= n) by (nonlinear_arith)
        requires
            0 <= n,
            0 < whole,
    ;
    assert(n / whole <= pot) by (nonlinear_arith)
        requires
            0 <= n <= pot * whole,
            0 < whole,
    ;
}

proof fn lemma_payouts_bounded(
    list: Seq<(Address, i128)>,
    pot: int,
    whole: int,
    token: Address,
    contract: Address,
)
    requires
        no_debts(list),
        0 <= pot <= i128::MAX,
        0 < whole <= i128::MAX,
        total(list) <= whole,
    ensures
        0 <= sum_transferred(payout_calls(list, pot, whole, token, contract)),
        sum_transferred(payout_calls(list, pot, whole, token, contract)) * whole <= pot * total(
            list,
        ),
    decreases list.len(),
{
    let calls = payout_calls(list, pot, whole, token, contract);
    if list.len() == 0 {
        assert(0 * whole <= pot * 0) by (nonlinear_arith);
    } else {
        let rest = list.drop_last();
        let part = list.last().1 as int;
        lemma_no_debts_in_part(list, list.len() - 1);
        lemma_total_nonnegative(rest);
        lemma_payouts_bounded(rest, pot, whole, token, contract);
        lemma_share_bound(pot, part, whole);
        let before = sum_transferred(payout_calls(rest, pot, whole, token, contract));
        let amount = share_of(pot, part, whole);
        if amount > 0 {
            assert(calls.drop_last() =~= payout_calls(rest, pot, whole, token, contract));
        }
        assert(sum_transferred(calls) == before + amount);
        assert((before + amount) * whole == before * whole + amount * whole) by (nonlinear_arith);
        assert(pot * total(list) == pot * total(rest) + pot * part) by (nonlinear_arith)
            requires
                total(list) == total(rest) + part,
        ;
    }
}

/// A settlement hands out no more than there is: the shares of the funders add up
/// to at most the pot.
pub proof fn law_payouts_never_exceed_the_pot(
    list: Seq<(Address, i128)>,
    pot: int,
    whole: int,
    token: Address,
    contract: Address,
)
    requires
        no_debts(list),
        0 <= pot <= i128::MAX,
        0 < whole <= i128::MAX,
        total(list) <= whole,
    ensures
        0 <= sum_transferred(payout_calls(list, pot, whole, token, contract)) <= pot,
{
    lemma_payouts_bounded(list, pot, whole, token, contract);
    let sum = sum_transferred(payout_calls(list, pot, whole, token, contract));
    assert(sum <= pot) by (nonlinear_arith)
        requires
            sum * whole <= pot * total(list),
            total(list) <= whole,
            0 <= pot,
            0 < whole,
    ;
}

/// A settlement keeps within the amount of the invoice: the fee and the shares of
/// the funders add up to at most what the payer has paid, for fees up to the whole.
pub proof fn law_settlement_keeps_within_the_amount(s: EnvView, id: u64, amount: int)
    requires
        books_sound(s),
        pay_refusal(s, id, amount) is None,
        or_default(s.instance.fee_rate, 0) <= 10_000,
    ensures
        0 <= settlement_fee(s, id),
        settlement_fee(s, id) + sum_transferred(
            payout_calls(
                s.funders(id),
                settlement_pot(s, id),
                s.invoice(id).amount as int,
                s.invoice(id).token,
                s.contract,
            ),
        ) <= s.invoice(id).amount,
{
    assert(s.has_invoice(id));
    law_discount_is_within_the_amount(
        s.invoice(id).amount as int,
        or_default(s.instance.fee_rate, 0) as int,
    );
    law_payouts_never_exceed_the_pot(
        s.funders(id),
        settlement_pot(s, id),
        s.invoice(id).amount as int,
        s.invoice(id).token,
        s.contract,
    );
}

/// What the shares leave over by rounding: less than one for every funder.
proof fn lemma_payouts_leave_little(
    list: Seq<(Address, i128)>,
    pot: int,
    whole: int,
    token: Address,
    contract: Address,
)
    requires
        no_debts(list),
        0 <= pot <= i128::MAX,
        0 < whole <= i128::MAX,
        total(list) <= whole,
        shares_fit(list, pot),
    ensures
        pot * total(list) <= sum_transferred(payout_calls(list, pot, whole, token, contract))
            * whole + list.len() * (whole - 1),
    decreases list.len(),
{
    let calls = payout_calls(list, pot, whole, token, contract);
    if list.len() == 0 {
        assert(pot * 0 <= 0 * whole + 0 * (whole - 1)) by (nonlinear_arith);
    } else {
        let rest = list.drop_last();
        let part = list.last().1 as int;
        let n = rest.len() as int;
        lemma_no_debts_in_part(list, list.len() - 1);
        lemma_total_nonnegative(rest);
        assert(in_i128(pot * list[n].1));
        assert(shares_fit(rest, pot)) by {
            assert forall|i: int| 0 <= i < rest.len() implies in_i128(
                pot * (#[trigger] rest[i]).1,
            ) by {
                assert(rest[i] == list[i]);
            }
        }
        lemma_payouts_leave_little(rest, pot, whole, token, contract);
        lemma_share_bound(pot, part, whole);
        let before = sum_transferred(payout_calls(rest, pot, whole, token, contract));
        let amount = share_of(pot, part, whole);
        assert(0 <= pot * part) by (nonlinear_arith)
            requires
                0 <= pot,
                0 <= part,
        ;
        assert(pot * part <= amount * whole + (whole - 1)) by (nonlinear_arith)
            requires
                amount == (pot * part) / whole,
                0 < whole,
        ;
        if amount > 0 {
            assert(calls.drop_last() =~= payout_calls(rest, pot, whole, token, contract));
        }
        assert(sum_transferred(calls) == before + amount);
        assert((before + amount) * whole == before * whole + amount * whole) by (nonlinear_arith);
        assert((n + 1) * (whole - 1) == n * (whole - 1) + (whole - 1)) by (nonlinear_arith);
        assert(pot * total(list) == pot * total(rest) + pot * part) by (nonlinear_arith)
            requires
                total(list) == total(rest) + part,
        ;
    }
}

/// Whether pot times contribution can be held, for every contribution. Where it
/// cannot, the share is nothing.
pub open spec fn shares_fit(list: Seq<(Address, i128)>, pot: int) -> bool {
    forall|i: int| 0 <= i < list.len() ==> in_i128(pot * (#[trigger] list[i]).1)
}

/// A settlement keeps next to nothing back: the amount less the fee less the shares
/// is at least nothing and below the number of funders, for fees up to the whole and
/// as long as the products can be held.
pub proof fn law_settlement_leaves_less_than_the_number_of_funders(
    s: EnvView,
    id: u64,
    amount: int,
)
    requires
        books_sound(s),
        pay_refusal(s, id, amount) is None,
        or_default(s.instance.fee_rate, 0) <= 10_000,
        shares_fit(s.funders(id), settlement_pot(s, id)),
    ensures
        ({
            let left = s.invoice(id).amount - settlement_fee(s, id) - sum_transferred(
                payout_calls(
                    s.funders(id),
                    settlement_pot(s, id),
                    s.invoice(id).amount as int,
                    s.invoice(id).token,
                    s.contract,
                ),
            );
            0 <= left < s.funders(id).len()
        }),
{
    assert(s.has_invoice(id));
    let list = s.funders(id);
    let whole = s.invoice(id).amount as int;
    let pot = settlement_pot(s, id);
    let (token, c) = (s.invoice(id).token, s.contract);
    let n = list.len() as int;
    law_settlement_keeps_within_the_amount(s, id, amount);
    law_discount_is_within_the_amount(whole, or_default(s.instance.fee_rate, 0) as int);
    lemma_payouts_leave_little(list, pot, whole, token, c);
    let sum = sum_transferred(payout_calls(list, pot, whole, token, c));
    assert(pot - sum < n) by (nonlinear_arith)
        requires
            pot * whole <= sum * whole + n * (whole - 1),
            0 < whole,
            0 < n,
    ;
}

/// A sole funder gets the whole pot, as long as the product of pot and amount can
/// be held. Without a fee that is the full amount, so the yield is the discount.
pub proof fn law_sole_funder_gets_the_pot(
    lp: Address,
    pot: int,
    whole: i128,
    token: Address,
    c: Address,
)
    requires
        whole > 0,
        0 < pot <= i128::MAX,
        pot * whole <= i128::MAX,
    ensures
        payout_calls(seq![(lp, whole)], pot, whole as int, token, c) == seq![
            HostCall::Transfer { token, from: c, to: lp, amount: pot as i128 },
        ],
{
    let list = seq![(lp, whole)];
    assert(list.drop_last() =~= Seq::empty());
    assert(pot * whole / (whole as int) == pot && 0 <= pot * whole) by (nonlinear_arith)
        requires
            whole > 0,
            pot > 0,
    ;
    reveal_with_fuel(payout_calls, 2);
    assert(payout_calls(list, pot, whole as int, token, c) =~= seq![
        HostCall::Transfer { token, from: c, to: lp, amount: pot as i128 },
    ]);
}

/// With sound books, funding needs no more than room for the numbers that it adds
/// to, and a clock that fits in 32 bits.
pub proof fn law_sound_books_can_take_funds(s: EnvView, funder: Address, id: u64, amount: int)
    requires
        books_sound(s),
        0 <= amount,
        s.has_invoice(id) ==> s.invoice(id).amount_funded + amount <= i128::MAX,
        s.has_invoice(id) ==> volume_fits(s, s.invoice(id).token, amount),
        s.ledger.timestamp <= u32::MAX,
        s.lp_score(funder) < u32::MAX,
        s.total_funded() < u64::MAX,
    ensures
        fund_fits(s, funder, id, amount),
{
    if fund_gate(s, funder, id) is None {
        assert(s.has_invoice(id));
        lemma_part_of_total(s.funders(id), funder);
    }
}

/// With sound books, a payment needs no more than an admin and room in the
/// counters, for fees up to the whole.
pub proof fn law_sound_books_can_take_payments(s: EnvView, id: u64, amount: int)
    requires
        books_sound(s),
        s.instance.admin is Some,
        or_default(s.instance.fee_rate, 0) <= 10_000,
        s.total_paid() < u64::MAX,
        s.has_invoice(id) ==> s.payer_score(s.invoice(id).payer) < u32::MAX,
    ensures
        pay_fits(s, id, amount),
{
    if pay_gate(s, id, amount) is None {
        assert(s.has_invoice(id));
        if pay_refusal(s, id, amount) is None && settles(s, id, amount) {
            let list = s.funders(id);
            let whole = s.invoice(id).amount as int;
            lemma_entry_of_total(list, 0);
            law_discount_is_within_the_amount(whole, or_default(s.instance.fee_rate, 0) as int);
            lemma_share_bound(settlement_pot(s, id), list[0].1 as int, whole);
        }
    }
}

/// With sound books, the refunds of any invoice can be added up, for discounts up
/// to the whole.
pub proof fn law_sound_books_can_refund(s: EnvView, id: u64)
    requires
        books_sound(s),
        s.has_invoice(id),
        s.invoice(id).discount_rate <= 10_000,
    ensures
        refunds_add_up(s.funders(id), s.invoice(id).discount_rate as int),
{
    let list = s.funders(id);
    let rate = s.invoice(id).discount_rate as int;
    assert forall|k: int| 0 <= k <= list.len() implies in_i128(
        #[trigger] refund_total(list.take(k), rate),
    ) by {
        let head = list.take(k);
        lemma_no_debts_in_part(list, k);
        law_refunds_never_exceed_contributions(head, rate);
        lemma_head_of_total(list, k);
    }
}

proof fn lemma_head_of_total(list: Seq<(Address, i128)>, k: int)
    requires
        no_debts(list),
        0 <= k <= list.len(),
    ensures
        total(list.take(k)) <= total(list),
    decreases list.len(),
{
    if k == list.len() {
        assert(list.take(k) =~= list);
    } else {
        let rest = list.drop_last();
        lemma_no_debts_in_part(list, list.len() - 1);
        lemma_head_of_total(rest, k);
        assert(rest.take(k) =~= list.take(k));
    }
}

} // verus!

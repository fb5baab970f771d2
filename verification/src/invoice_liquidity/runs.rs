//! What a row of calls comes to: submissions one by one, payments in parts, and
//! contributions that are given back.

use crate::host::{Address, LedgerInfo};
use crate::invoice_liquidity::arith::{lemma_net_fits, net_of};
use crate::invoice_liquidity::behaviour::at;
use crate::invoice_liquidity::contributions::{
    contributed, contributes, first_entry, law_contributors_have_an_entry, payout_calls,
    refund_calls, total,
};
use crate::invoice_liquidity::env::{EnvView, HostCall, PersistentView};
use crate::invoice_liquidity::errors::ContractError;
use crate::invoice_liquidity::funding::{completes, fund_refusal, funded};
use crate::invoice_liquidity::invoice::{Invoice, InvoiceParams, InvoiceStatus};
use crate::invoice_liquidity::laws::{all_positive, books_sound, distinct_funders};
use crate::invoice_liquidity::money::{
    gain, lemma_filter_push, lemma_received_add, lemma_received_push, received, sum_transferred,
    transfer_into, transfer_out_of,
};
use crate::invoice_liquidity::settlement::{
    fee_paid, handed_out, partially_paid, pay_refusal, payment_taken, settled, settlement_fee,
    settlement_pot, settles,
};
use crate::invoice_liquidity::submission::{
    batch_ids, batch_recorded, batch_refusal, cancel_refusal, cancelled, first_refused,
    item_refusal, new_invoice, recorded, room_for, submit_refusal,
};
use vstd::prelude::*;

verus! {

// ----------------------------------------------------------------
// Submissions one by one
// ----------------------------------------------------------------

/// The invocation after one submission after the other was recorded, each on its own.
pub open spec fn submitted_in_turn(s: EnvView, items: Seq<InvoiceParams>) -> EnvView
    decreases items.len(),
{
    if items.len() == 0 {
        s
    } else {
        recorded(
            submitted_in_turn(s, items.drop_last()).authorized(items.last().freelancer),
            items.last(),
        )
    }
}

proof fn lemma_in_turn(s: EnvView, items: Seq<InvoiceParams>)
    requires
        room_for(s, items.len() as int),
    ensures
        ({
            let t = submitted_in_turn(s, items);
            &&& t.persistent == batch_recorded(s, items).persistent
            &&& t.instance == s.instance && t.ledger == s.ledger
            &&& batch_recorded(s, items).instance == s.instance
            &&& batch_recorded(s, items).ledger == s.ledger
            &&& t.persistent.approved_tokens == s.persistent.approved_tokens
            &&& t.invoice_count() == s.invoice_count() + items.len()
            &&& t.total_invoices() == s.total_invoices() + items.len()
        }),
    decreases items.len(),
{
    if items.len() > 0 {
        lemma_in_turn(s, items.drop_last());
    }
}

proof fn lemma_first_refused(s: EnvView, items: Seq<InvoiceParams>, i: int)
    ensures
        0 <= first_refused(s, items) <= items.len(),
        first_refused(s, items) < items.len() ==> item_refusal(
            s,
            items[first_refused(s, items)],
        ) is Some,
        first_refused(s, items) == items.len() && 0 <= i < items.len() ==> item_refusal(
            s,
            items[i],
        ) is None,
    decreases items.len(),
{
    if items.len() > 0 {
        lemma_first_refused(s, items.drop_last(), i);
    }
}

/// A batch that is accepted comes to the same as its submissions one by one: each of
/// them is accepted, and gets the number that the batch gives it, and all that is
/// stored is the same. (A batch does not ask whether a freelancer invoices
/// themselves.)
pub proof fn law_a_batch_is_its_submissions(s: EnvView, items: Seq<InvoiceParams>, i: int)
    requires
        batch_refusal(s, items) is None,
        room_for(s, items.len() as int),
        forall|j: int|
            0 <= j < items.len() ==> (#[trigger] items[j]).freelancer != items[j].payer,
        0 <= i < items.len(),
    ensures
        submitted_in_turn(s, items).persistent == batch_recorded(s, items).persistent,
        submit_refusal(submitted_in_turn(s, items.take(i)), items[i]) is None,
        room_for(submitted_in_turn(s, items.take(i)), 1),
        new_invoice(submitted_in_turn(s, items.take(i)), items[i]).id == batch_ids(
            s,
            items.len(),
        )[i],
{
    lemma_in_turn(s, items);
    lemma_in_turn(s, items.take(i));
    lemma_first_refused(s, items, i);
    assert(items[i].freelancer != items[i].payer);
}

// ----------------------------------------------------------------
// Payments in parts
// ----------------------------------------------------------------

/// The invocation after a payment that is accepted.
pub open spec fn paid(s: EnvView, id: u64, amount: i128) -> EnvView {
    if settles(s, id, amount as int) {
        settled(s, id, amount)
    } else {
        partially_paid(s, id, amount)
    }
}

/// The invocation after payments on an invoice, each at its time.
pub open spec fn paid_in_turn(s: EnvView, id: u64, parts: Seq<(LedgerInfo, i128)>) -> EnvView
    decreases parts.len(),
{
    if parts.len() == 0 {
        s
    } else {
        paid(at(paid_in_turn(s, id, parts.drop_last()), parts.last().0), id, parts.last().1)
    }
}

/// Sum of the parts.
pub open spec fn sum_of_parts(parts: Seq<(LedgerInfo, i128)>) -> int
    decreases parts.len(),
{
    if parts.len() == 0 {
        0
    } else {
        sum_of_parts(parts.drop_last()) + parts.last().1
    }
}

/// Whether every part is a payment.
pub open spec fn all_payments(parts: Seq<(LedgerInfo, i128)>) -> bool {
    forall|i: int| 0 <= i < parts.len() ==> (#[trigger] parts[i]).1 > 0
}

proof fn lemma_sum_of_parts(parts: Seq<(LedgerInfo, i128)>, k: int)
    requires
        all_payments(parts),
        0 <= k <= parts.len(),
    ensures
        0 <= sum_of_parts(parts.take(k)) <= sum_of_parts(parts),
        k < parts.len() ==> sum_of_parts(parts.take(k)) + parts[k].1 <= sum_of_parts(parts),
        k < parts.len() - 1 ==> sum_of_parts(parts.take(k)) + parts[k].1 < sum_of_parts(parts),
    decreases parts.len(),
{
    if parts.len() > 0 {
        let rest = parts.drop_last();
        assert(parts[parts.len() - 1].1 > 0);
        assert forall|i: int| 0 <= i < rest.len() implies (#[trigger] rest[i]).1 > 0 by {
            assert(rest[i] == parts[i]);
        }
        if k < parts.len() {
            lemma_sum_of_parts(rest, k);
            assert(rest.take(k) =~= parts.take(k));
            if k == parts.len() - 1 {
                assert(parts.take(k) =~= rest);
            }
        } else {
            lemma_sum_of_parts(rest, k - 1);
            assert(parts.take(k) =~= parts);
            assert(rest.take(k - 1) =~= rest);
        }
    }
}

/// An invoice of `s` of which `sum` has been paid, with nothing else changed.
spec fn with_paid(s: EnvView, id: u64, sum: int) -> PersistentView {
    PersistentView {
        invoices: s.persistent.invoices.insert(
            id,
            Invoice { amount_paid: sum as i128, ..s.invoice(id) },
        ),
        ..s.persistent
    }
}

/// What somebody else than the contract has paid in, by a row of host calls.
pub open spec fn paid_in(calls: Seq<HostCall>, contract: Address) -> int {
    sum_transferred(calls.filter(transfer_into(contract)))
}

/// What a payment by `payer` brings the contract.
pub open spec fn brings(payer: Address, contract: Address, amount: int) -> int {
    if payer == contract {
        0
    } else {
        amount
    }
}

proof fn lemma_paid_in_push(calls: Seq<HostCall>, call: HostCall, c: Address)
    ensures
        paid_in(calls.push(call), c) == paid_in(calls, c) + (match call {
            HostCall::Transfer { from, to, amount, .. } => if to == c && from != c {
                amount as int
            } else {
                0
            },
            _ => 0,
        }),
{
    lemma_filter_push(calls, call, transfer_into(c));
    let kept = calls.filter(transfer_into(c));
    assert(kept.push(call).drop_last() =~= kept);
}

/// What taking a payment adds to the host calls.
proof fn lemma_payment_calls(s: EnvView, id: u64, amount: i128)
    ensures
        ({
            let calls = payment_taken(s, id, amount).calls;
            let c = s.contract;
            &&& calls.filter(transfer_out_of(c)) == s.calls.filter(transfer_out_of(c))
            &&& paid_in(calls, c) == paid_in(s.calls, c) + brings(
                s.invoice(id).payer,
                c,
                amount as int,
            )
        }),
{
    let c = s.contract;
    let asked = s.calls.push(HostCall::RequireAuth(s.invoice(id).payer));
    let t = payment_taken(s, id, amount);
    assert(t.calls =~= asked.push(t.calls.last()));
    lemma_filter_push(s.calls, asked.last(), transfer_out_of(c));
    lemma_filter_push(asked, t.calls.last(), transfer_out_of(c));
    lemma_paid_in_push(s.calls, asked.last(), c);
    lemma_paid_in_push(asked, t.calls.last(), c);
}

/// What a payment that leaves something to pay adds to the host calls.
proof fn lemma_partial_calls(s: EnvView, id: u64, amount: i128)
    ensures
        ({
            let calls = partially_paid(s, id, amount).calls;
            let c = s.contract;
            &&& calls.filter(transfer_out_of(c)) == s.calls.filter(transfer_out_of(c))
            &&& paid_in(calls, c) == paid_in(s.calls, c) + brings(
                s.invoice(id).payer,
                c,
                amount as int,
            )
        }),
{
    let c = s.contract;
    let t = partially_paid(s, id, amount);
    let taken = payment_taken(s, id, amount).calls;
    let kept = taken.push(t.calls[t.calls.len() - 2]);
    assert(t.calls =~= kept.push(t.calls.last()));
    lemma_payment_calls(s, id, amount);
    lemma_filter_push(taken, kept.last(), transfer_out_of(c));
    lemma_filter_push(kept, t.calls.last(), transfer_out_of(c));
    lemma_paid_in_push(taken, kept.last(), c);
    lemma_paid_in_push(kept, t.calls.last(), c);
}

/// The transfers that a settlement makes.
pub open spec fn settlement_transfers(s: EnvView, id: u64) -> Seq<HostCall> {
    let fee = if settlement_fee(s, id) > 0 {
        seq![
            HostCall::Transfer {
                token: s.invoice(id).token,
                from: s.contract,
                to: s.instance.admin->0,
                amount: settlement_fee(s, id) as i128,
            },
        ]
    } else {
        Seq::empty()
    };
    fee + payout_calls(
        s.funders(id),
        settlement_pot(s, id),
        s.invoice(id).amount as int,
        s.invoice(id).token,
        s.contract,
    )
}

/// Payouts bring the contract nothing.
proof fn lemma_payouts_bring_nothing(
    calls: Seq<HostCall>,
    list: Seq<(Address, i128)>,
    pot: int,
    whole: int,
    token: Address,
    c: Address,
)
    ensures
        paid_in(calls + payout_calls(list, pot, whole, token, c), c) == paid_in(calls, c),
    decreases list.len(),
{
    let all = payout_calls(list, pot, whole, token, c);
    if list.len() == 0 {
        assert(calls + all =~= calls);
    } else {
        let before = payout_calls(list.drop_last(), pot, whole, token, c);
        lemma_payouts_bring_nothing(calls, list.drop_last(), pot, whole, token, c);
        if all != before {
            assert(calls + all =~= (calls + before).push(all.last()));
            lemma_paid_in_push(calls + before, all.last(), c);
        }
    }
}

/// What the payment that settles an invoice adds to the host calls.
proof fn lemma_settled_calls(s: EnvView, id: u64, amount: i128)
    ensures
        ({
            let calls = settled(s, id, amount).calls;
            let c = s.contract;
            &&& calls.filter(transfer_out_of(c)) == s.calls.filter(transfer_out_of(c))
                + settlement_transfers(s, id).filter(transfer_out_of(c))
            &&& paid_in(calls, c) == paid_in(s.calls, c) + brings(
                s.invoice(id).payer,
                c,
                amount as int,
            )
        }),
{
    let c = s.contract;
    let out = transfer_out_of(c);
    let t = settled(s, id, amount);
    let taken = payment_taken(s, id, amount).calls;
    let handed = handed_out(s, id, amount).calls;
    lemma_payment_calls(s, id, amount);
    assert(handed =~= taken + settlement_transfers(s, id));
    Seq::filter_distributes_over_add(taken, settlement_transfers(s, id), out);
    let charged = fee_paid(
        payment_taken(s, id, amount),
        s.invoice(id).token,
        settlement_fee(s, id),
    ).calls;
    if settlement_fee(s, id) > 0 {
        assert(charged =~= taken.push(charged.last()));
        lemma_paid_in_push(taken, charged.last(), c);
    }
    lemma_payouts_bring_nothing(
        charged,
        s.funders(id),
        settlement_pot(s, id),
        s.invoice(id).amount as int,
        s.invoice(id).token,
        c,
    );
    let n = handed.len() as int;
    let kept = handed.push(t.calls[n]);
    lemma_filter_push(handed, t.calls[n], out);
    lemma_paid_in_push(handed, t.calls[n], c);
    if s.instance.distribution_contract is Some {
        let told = kept.push(t.calls[n + 1]);
        assert(t.calls =~= told.push(t.calls.last()));
        lemma_filter_push(kept, t.calls[n + 1], out);
        lemma_paid_in_push(kept, t.calls[n + 1], c);
        lemma_filter_push(told, t.calls.last(), out);
        lemma_paid_in_push(told, t.calls.last(), c);
    } else {
        assert(t.calls =~= kept.push(t.calls.last()));
        lemma_filter_push(kept, t.calls.last(), out);
        lemma_paid_in_push(kept, t.calls.last(), c);
    }
}

/// Payments that leave something to pay change nothing but what was paid, and send
/// nothing out.
proof fn lemma_parts_before_the_last(
    s: EnvView,
    id: u64,
    parts: Seq<(LedgerInfo, i128)>,
    k: int,
)
    requires
        books_sound(s),
        s.has_invoice(id),
        s.invoice(id).amount_paid == 0,
        all_payments(parts),
        sum_of_parts(parts) == s.invoice(id).amount,
        0 <= k < parts.len(),
    ensures
        ({
            let t = paid_in_turn(s, id, parts.take(k));
            let c = s.contract;
            &&& t.persistent == with_paid(s, id, sum_of_parts(parts.take(k)))
            &&& t.instance == s.instance && t.contract == c
            &&& t.oracle_prices == s.oracle_prices
            &&& t.calls.filter(transfer_out_of(c)) == s.calls.filter(transfer_out_of(c))
            &&& paid_in(t.calls, c) == paid_in(s.calls, c) + brings(
                s.invoice(id).payer,
                c,
                sum_of_parts(parts.take(k)),
            )
        }),
    decreases k,
{
    let t = paid_in_turn(s, id, parts.take(k));
    if k == 0 {
        assert(parts.take(0) =~= Seq::empty());
        assert(s.persistent.invoices.insert(id, s.invoice(id)) =~= s.persistent.invoices);
    } else {
        lemma_parts_before_the_last(s, id, parts, k - 1);
        lemma_sum_of_parts(parts, k - 1);
        assert(parts.take(k).drop_last() =~= parts.take(k - 1));
        assert(parts.take(k).last() == parts[k - 1]);
        let before = at(paid_in_turn(s, id, parts.take(k - 1)), parts[k - 1].0);
        lemma_partial_calls(before, id, parts[k - 1].1);
        assert(t.persistent.invoices =~= with_paid(
            s,
            id,
            sum_of_parts(parts.take(k)),
        ).invoices);
    }
}

/// Payments in parts that add up to the amount come to the same as one payment at the
/// time of the last. Every one of them is accepted. Until the last, the invoice
/// stays funded and nothing is sent out. With the last it is paid, all that is stored
/// is the same, among it the score of the payer and the number of paid invoices, the
/// same is sent to the admin and the funders, and the payer has paid the same.
pub proof fn law_parts_settle_like_one_payment(
    s: EnvView,
    id: u64,
    parts: Seq<(LedgerInfo, i128)>,
    k: int,
)
    requires
        books_sound(s),
        !s.is_paused(),
        s.has_invoice(id),
        s.invoice(id).status == InvoiceStatus::Funded,
        s.invoice(id).amount_paid == 0,
        all_payments(parts),
        sum_of_parts(parts) == s.invoice(id).amount,
        0 <= k < parts.len(),
    ensures
        ({
            let before = paid_in_turn(s, id, parts.take(k));
            let t = paid_in_turn(s, id, parts);
            let one = at(s, parts.last().0);
            let c = s.contract;
            &&& pay_refusal(at(before, parts[k].0), id, parts[k].1 as int) is None
            &&& before.invoice(id).status == InvoiceStatus::Funded
            &&& before.invoice(id).amount_paid == sum_of_parts(parts.take(k))
            &&& before.calls.filter(transfer_out_of(c)) == s.calls.filter(transfer_out_of(c))
            &&& pay_refusal(one, id, s.invoice(id).amount as int) is None
            &&& t.invoice(id).status == InvoiceStatus::Paid
            &&& t.persistent == paid(one, id, s.invoice(id).amount).persistent
            &&& t.calls.filter(transfer_out_of(c)) == paid(
                one,
                id,
                s.invoice(id).amount,
            ).calls.filter(transfer_out_of(c))
            &&& paid_in(t.calls, c) == paid_in(paid(one, id, s.invoice(id).amount).calls, c)
        }),
{
    let n = parts.len() - 1;
    let amount = s.invoice(id).amount;
    lemma_parts_before_the_last(s, id, parts, k);
    lemma_sum_of_parts(parts, k);
    lemma_parts_before_the_last(s, id, parts, n);
    lemma_sum_of_parts(parts, n);
    assert(parts.take(n) =~= parts.drop_last());
    let last = at(paid_in_turn(s, id, parts.take(n)), parts[n].0);
    let one = at(s, parts[n].0);
    assert(s.funders(id).len() > 0) by {
        assert(total(s.funders(id)) == s.invoice(id).amount_funded);
    }
    assert(last.funders(id) == s.funders(id));
    assert(last.payer_score(s.invoice(id).payer) == one.payer_score(s.invoice(id).payer));
    lemma_settled_calls(last, id, parts[n].1);
    lemma_settled_calls(one, id, amount);
    assert(settlement_transfers(last, id) == settlement_transfers(one, id));
    assert(settled(last, id, parts[n].1).persistent.invoices =~= settled(
        one,
        id,
        amount,
    ).persistent.invoices);
}

// ----------------------------------------------------------------
// Contributions that are given back
// ----------------------------------------------------------------

/// The invocation after contributions to an invoice, each at its time.
pub open spec fn funded_in_turn(
    s: EnvView,
    id: u64,
    parts: Seq<(LedgerInfo, (Address, i128))>,
) -> EnvView
    decreases parts.len(),
{
    if parts.len() == 0 {
        s
    } else {
        let (ledger, (funder, amount)) = parts.last();
        funded(at(funded_in_turn(s, id, parts.drop_last()), ledger), funder, id, amount)
    }
}

/// Whether every contribution is accepted when its turn comes.
pub open spec fn accepted_in_turn(
    s: EnvView,
    id: u64,
    parts: Seq<(LedgerInfo, (Address, i128))>,
) -> bool
    decreases parts.len(),
{
    parts.len() > 0 ==> {
        let (ledger, (funder, amount)) = parts.last();
        &&& accepted_in_turn(s, id, parts.drop_last())
        &&& fund_refusal(
            at(funded_in_turn(s, id, parts.drop_last()), ledger),
            funder,
            id,
            amount as int,
        ) is None
    }
}

/// The contributions themselves.
pub open spec fn contributions_of(parts: Seq<(LedgerInfo, (Address, i128))>) -> Seq<
    (Address, i128),
> {
    parts.map_values(|p: (LedgerInfo, (Address, i128))| p.1)
}

/// What a contribution that does not complete the funding moves: the contribution
/// less the discount, from the funder to the contract.
proof fn lemma_funded_moves(
    s: EnvView,
    funder: Address,
    id: u64,
    amount: i128,
    token: Address,
    who: Address,
)
    requires
        !completes(s, id, amount as int),
    ensures
        received(funded(s, funder, id, amount).calls, token, who) == received(s.calls, token, who)
            + gain(
            HostCall::Transfer {
                token: s.invoice(id).token,
                from: funder,
                to: s.contract,
                amount: net_of(amount as int, s.invoice(id).discount_rate as int) as i128,
            },
            token,
            who,
        ),
{
    let t = funded(s, funder, id, amount);
    let n = s.calls.len() as int;
    let added = t.calls.skip(n);
    assert(t.calls =~= s.calls + added);
    lemma_received_add(s.calls, added, token, who);
    let moved = added.take(2);
    let rest = added.skip(2);
    assert(added =~= moved + rest);
    lemma_received_add(moved, rest, token, who);
    assert(moved =~= seq![moved[0]].push(moved[1]));
    assert(seq![moved[0]] =~= Seq::<HostCall>::empty().push(moved[0]));
    lemma_received_push(Seq::empty(), moved[0], token, who);
    lemma_received_push(seq![moved[0]], moved[1], token, who);
    assert forall|i: int| 0 <= i < rest.len() implies !(#[trigger] rest[i] is Transfer) by {}
    lemma_nothing_moved(rest, token, who);
}

pub(crate) proof fn lemma_nothing_moved(calls: Seq<HostCall>, token: Address, who: Address)
    requires
        forall|i: int| 0 <= i < calls.len() ==> !(#[trigger] calls[i] is Transfer),
    ensures
        received(calls, token, who) == 0,
    decreases calls.len(),
{
    if calls.len() > 0 {
        assert(!(calls[calls.len() - 1] is Transfer));
        lemma_nothing_moved(calls.drop_last(), token, who);
    }
}

/// Distinct contributions to an invoice that nobody has funded make up its list, and
/// giving them back would undo what they moved.
pub(crate) proof fn lemma_funded_in_turn(
    s: EnvView,
    id: u64,
    parts: Seq<(LedgerInfo, (Address, i128))>,
    token: Address,
    who: Address,
)
    requires
        s.has_invoice(id),
        s.invoice(id).id == id,
        s.invoice(id).status == InvoiceStatus::Pending,
        s.invoice(id).amount_funded == 0,
        s.funders(id).len() == 0,
        distinct_funders(contributions_of(parts)),
        all_positive(contributions_of(parts)),
        total(contributions_of(parts)) < s.invoice(id).amount,
        accepted_in_turn(s, id, parts),
    ensures
        ({
            let t = funded_in_turn(s, id, parts);
            let list = contributions_of(parts);
            &&& t.has_invoice(id)
            &&& t.invoice(id) == (Invoice {
                amount_funded: total(list) as i128,
                status: if parts.len() == 0 {
                    InvoiceStatus::Pending
                } else {
                    InvoiceStatus::PartiallyFunded
                },
                ..s.invoice(id)
            })
            &&& 0 <= total(list)
            &&& t.funders(id) == list
            &&& t.contract == s.contract && t.instance == s.instance
            &&& received(t.calls, token, who) + received(
                refund_calls(
                    list,
                    s.invoice(id).discount_rate as int,
                    s.invoice(id).token,
                    s.contract,
                ),
                token,
                who,
            ) == received(s.calls, token, who)
        }),
    decreases parts.len(),
{
    let list = contributions_of(parts);
    let rate = s.invoice(id).discount_rate as int;
    if parts.len() == 0 {
        assert(list =~= Seq::empty());
        assert(s.funders(id) =~= list);
    } else {
        let rest = parts.drop_last();
        let before = contributions_of(rest);
        let (ledger, (funder, amount)) = parts.last();
        assert(before =~= list.drop_last());
        assert(list.last() == (funder, amount));
        assert(list[list.len() - 1].1 > 0);
        assert forall|i: int| 0 <= i < before.len() implies (#[trigger] before[i]).1 > 0
            && before[i].0 != funder by {
            assert(before[i] == list[i]);
            assert(list[i].0 != list[list.len() - 1].0);
        }
        assert forall|i: int, j: int| 0 <= i < j < before.len() implies (#[trigger] before[i]).0
            != (#[trigger] before[j]).0 by {
            assert(list[i].0 != list[j].0);
        }
        lemma_funded_in_turn(s, id, rest, token, who);
        let t = at(funded_in_turn(s, id, rest), ledger);
        let u = funded(t, funder, id, amount);
        law_contributors_have_an_entry(before, funder);
        assert(!contributes(before, funder));
        assert(first_entry(before, funder) == before.len());
        assert(contributed(before, funder, amount) =~= list);
        assert(u.funders(id) == list);
        assert(!completes(t, id, amount as int));
        lemma_funded_moves(t, funder, id, amount, token, who);
        lemma_net_fits(amount as int, rate);
        let back = refund_calls(before, rate, s.invoice(id).token, s.contract);
        let all = refund_calls(list, rate, s.invoice(id).token, s.contract);
        assert(all.drop_last() =~= back);
    }
}

/// Cancelling an invoice after distinct funders have each put in a part gives all of
/// them exactly what they paid: in every token, everyone, the contract among them,
/// is as if nothing had been put in. The invoice is cancelled and otherwise as it
/// was, and cannot be cancelled again.
pub proof fn law_cancelling_gives_everything_back(
    s: EnvView,
    id: u64,
    parts: Seq<(LedgerInfo, (Address, i128))>,
    end: LedgerInfo,
    token: Address,
    who: Address,
)
    requires
        books_sound(s),
        !s.is_paused(),
        s.has_invoice(id),
        s.invoice(id).status == InvoiceStatus::Pending,
        s.funders(id).len() == 0,
        distinct_funders(contributions_of(parts)),
        all_positive(contributions_of(parts)),
        total(contributions_of(parts)) < s.invoice(id).amount,
        accepted_in_turn(s, id, parts),
    ensures
        ({
            let t = at(funded_in_turn(s, id, parts), end);
            let u = cancelled(t, id);
            &&& t.funders(id) == contributions_of(parts)
            &&& cancel_refusal(t, id) is None
            &&& u.invoice(id) == (Invoice { status: InvoiceStatus::Cancelled, ..t.invoice(id) })
            &&& received(u.calls, token, who) == received(s.calls, token, who)
            &&& cancel_refusal(u, id) == Some(ContractError::AlreadyCancelled)
        }),
{
    let t = at(funded_in_turn(s, id, parts), end);
    let u = cancelled(t, id);
    let list = contributions_of(parts);
    let back = refund_calls(
        list,
        s.invoice(id).discount_rate as int,
        s.invoice(id).token,
        s.contract,
    );
    lemma_funded_in_turn(s, id, parts, token, who);
    let asked = t.calls.push(HostCall::RequireAuth(s.invoice(id).freelancer));
    lemma_received_push(t.calls, asked.last(), token, who);
    let refunded = if parts.len() == 0 {
        assert(list =~= Seq::empty());
        asked
    } else {
        lemma_received_add(asked, back, token, who);
        asked + back
    };
    let kept = refunded.push(u.calls[refunded.len() as int]);
    assert(u.calls =~= kept.push(u.calls.last()));
    lemma_received_push(refunded, kept.last(), token, who);
    lemma_received_push(kept, u.calls.last(), token, who);
}

} // verus!

//! What the operations move, said of the host calls that they make.
//!
//! Every law here speaks of calls that were made: of their arguments, their results,
//! and the host calls that they added.

use crate::host::{Address, Hash32, LedgerInfo};
use crate::invoice_liquidity::arith::{
    in_i128, law_discount_is_within_the_amount, lemma_net_fits, net_of, product, scaled, share_of,
};
use crate::invoice_liquidity::behaviour::at;
use crate::invoice_liquidity::contract::InvoiceLiquidityContract;
use crate::invoice_liquidity::contributions::{payout_calls, refund_calls, refund_total, total};
use crate::invoice_liquidity::env::{Env, EnvView, HostCall};
use crate::invoice_liquidity::errors::ContractError;
use crate::invoice_liquidity::events::Event;
use crate::invoice_liquidity::funding::{contribution_taken, funded, funded_event};
use crate::invoice_liquidity::invoice::{Invoice, InvoiceStatus};
use crate::invoice_liquidity::laws::{
    all_positive, books_sound, distinct_funders, invoice_sound, law_funding_keeps_books_sound,
    lemma_no_debts_in_part, lemma_total_nonnegative, no_debts,
};
use crate::invoice_liquidity::model::or_default;
use crate::invoice_liquidity::money::{
    gain, law_contributions_cover_the_payout, law_refunds_are_what_is_announced,
    law_settlement_leaves_less_than_the_number_of_funders, lemma_received_add,
    lemma_received_push, lemma_share_bound, received, sum_transferred,
};
use crate::invoice_liquidity::runs::{
    accepted_in_turn, contributions_of, funded_in_turn, lemma_funded_in_turn, lemma_nothing_moved,
};
use crate::invoice_liquidity::settlement::{paid_event, settled, settlement_fee, settlement_pot};
use crate::invoice_liquidity::storage::DataKey;
use vstd::prelude::*;

verus! {

// ----------------------------------------------------------------
// Amounts
// ----------------------------------------------------------------

/// `rate` basis points of `amount`, rounded towards zero; nothing where the product
/// cannot be held.
pub open spec fn basis_points(amount: int, rate: int) -> int {
    if amount * rate < i128::MIN || amount * rate > i128::MAX {
        0
    } else if amount * rate < 0 {
        -(-(amount * rate) / 10_000)
    } else {
        amount * rate / 10_000
    }
}

/// What `part` of `whole` gets of `pot`, rounded down; nothing where there is no pot or
/// the product cannot be held.
pub open spec fn portion(pot: int, part: int, whole: int) -> int {
    if pot <= 0 || pot * part > i128::MAX {
        0
    } else {
        pot * part / whole
    }
}

/// Basis points are ten-thousandths, rounded down: as long as the product can be held,
/// they make up the product to within a unit.
pub proof fn law_basis_points_are_ten_thousandths(amount: int, rate: int)
    requires
        0 <= amount * rate <= i128::MAX,
    ensures
        10_000 * basis_points(amount, rate) <= amount * rate,
        amount * rate < 10_000 * basis_points(amount, rate) + 10_000,
{
}

/// A portion is in proportion, rounded down: as long as the product can be held, it
/// makes up the product to within a unit of the whole.
pub proof fn law_portions_are_in_proportion(pot: int, part: int, whole: int)
    requires
        0 < pot,
        pot * part <= i128::MAX,
        0 < whole,
    ensures
        portion(pot, part, whole) * whole <= pot * part,
        pot * part < portion(pot, part, whole) * whole + whole,
{
    let n = pot * part;
    assert((n / whole) * whole <= n && n < (n / whole) * whole + whole) by (nonlinear_arith)
        requires
            0 < whole,
    ;
}

// ----------------------------------------------------------------
// What calls move
// ----------------------------------------------------------------

/// The host calls that an invocation has added.
pub open spec fn added(s: EnvView, t: EnvView) -> Seq<HostCall> {
    t.calls.skip(s.calls.len() as int)
}

/// Whether host calls were added and none taken back.
pub open spec fn went_on(s: EnvView, t: EnvView) -> bool {
    t.calls == s.calls + added(s, t)
}

/// The transfers among a row of host calls.
pub open spec fn transfers(calls: Seq<HostCall>) -> Seq<HostCall> {
    calls.filter(|call: HostCall| call is Transfer)
}

/// What a row of host calls moves of a token from one address to another.
pub open spec fn sent(calls: Seq<HostCall>, token: Address, from: Address, to: Address) -> int
    decreases calls.len(),
{
    if calls.len() == 0 {
        0
    } else {
        sent(calls.drop_last(), token, from, to) + (match calls.last() {
            HostCall::Transfer { token: moved, from: giver, to: taker, amount } => if moved == token
                && giver == from && taker == to {
                amount as int
            } else {
                0
            },
            _ => 0,
        })
    }
}

proof fn lemma_transfers_push(calls: Seq<HostCall>, call: HostCall)
    ensures
        transfers(calls.push(call)) == (if call is Transfer {
            transfers(calls).push(call)
        } else {
            transfers(calls)
        }),
{
    reveal(Seq::filter);
    assert(calls.push(call).drop_last() =~= calls);
}

proof fn lemma_transfers_add(a: Seq<HostCall>, b: Seq<HostCall>)
    ensures
        transfers(a + b) == transfers(a) + transfers(b),
{
    Seq::filter_distributes_over_add(a, b, |call: HostCall| call is Transfer);
}

proof fn lemma_no_transfers(calls: Seq<HostCall>)
    requires
        forall|i: int| 0 <= i < calls.len() ==> !(#[trigger] calls[i] is Transfer),
    ensures
        transfers(calls) == Seq::<HostCall>::empty(),
    decreases calls.len(),
{
    reveal(Seq::filter);
    if calls.len() > 0 {
        assert(!(calls[calls.len() - 1] is Transfer));
        assert forall|i: int| 0 <= i < calls.drop_last().len() implies !(
        #[trigger] calls.drop_last()[i] is Transfer) by {
            assert(calls.drop_last()[i] == calls[i]);
        }
        lemma_no_transfers(calls.drop_last());
    }
}

proof fn lemma_all_transfers(calls: Seq<HostCall>)
    requires
        forall|i: int| 0 <= i < calls.len() ==> (#[trigger] calls[i] is Transfer),
    ensures
        transfers(calls) == calls,
    decreases calls.len(),
{
    reveal(Seq::filter);
    if calls.len() > 0 {
        assert(calls[calls.len() - 1] is Transfer);
        assert forall|i: int| 0 <= i < calls.drop_last().len() implies (
        #[trigger] calls.drop_last()[i] is Transfer) by {
            assert(calls.drop_last()[i] == calls[i]);
        }
        lemma_all_transfers(calls.drop_last());
        assert(calls =~= calls.drop_last().push(calls.last()));
    }
}

/// Only transfers move anything.
proof fn lemma_sent_by_transfers(calls: Seq<HostCall>, token: Address, from: Address, to: Address)
    ensures
        sent(transfers(calls), token, from, to) == sent(calls, token, from, to),
        sum_transferred(transfers(calls)) == sum_transferred(calls),
    decreases calls.len(),
{
    if calls.len() > 0 {
        let rest = calls.drop_last();
        lemma_sent_by_transfers(rest, token, from, to);
        assert(calls =~= rest.push(calls.last()));
        lemma_transfers_push(rest, calls.last());
        if calls.last() is Transfer {
            assert(transfers(calls).drop_last() =~= transfers(rest));
        }
    } else {
        reveal(Seq::filter);
    }
}

proof fn lemma_sent_add(
    a: Seq<HostCall>,
    b: Seq<HostCall>,
    token: Address,
    from: Address,
    to: Address,
)
    ensures
        sent(a + b, token, from, to) == sent(a, token, from, to) + sent(b, token, from, to),
        sum_transferred(a + b) == sum_transferred(a) + sum_transferred(b),
    decreases b.len(),
{
    if b.len() == 0 {
        assert(a + b =~= a);
    } else {
        lemma_sent_add(a, b.drop_last(), token, from, to);
        assert((a + b).drop_last() =~= a + b.drop_last());
    }
}

// ----------------------------------------------------------------
// Funding
// ----------------------------------------------------------------

/// The host calls that a contribution adds, one after the other.
pub(crate) proof fn lemma_funded_calls(s: EnvView, funder: Address, id: u64, amount: i128)
    ensures
        ({
            let v = s.invoice(id);
            let full = v.amount_funded + amount == v.amount;
            let rate = v.discount_rate as int;
            let ttl = |key: DataKey|
                HostCall::ExtendTtl { key, threshold: 1_000_000, extend_to: 2_000_000 };
            let paid_in = HostCall::Transfer {
                token: v.token,
                from: funder,
                to: s.contract,
                amount: (amount - basis_points(amount as int, rate)) as i128,
            };
            let paid_out = HostCall::Transfer {
                token: v.token,
                from: s.contract,
                to: v.freelancer,
                amount: (v.amount - basis_points(v.amount as int, rate)) as i128,
            };
            let listed = if s.lp_ids(funder).contains(id) {
                Seq::empty()
            } else {
                seq![ttl(DataKey::LpInvoices(funder))]
            };
            let told = match s.instance.distribution_contract {
                Some(contract) => seq![HostCall::AccrueLp { contract, lp: funder, amount }],
                None => Seq::empty(),
            };
            funded(s, funder, id, amount).calls == s.calls + seq![HostCall::RequireAuth(funder)]
                + (if full {
                seq![paid_in, paid_out]
            } else {
                seq![paid_in]
            }) + (seq![ttl(DataKey::Invoice(v.id))] + listed + told + seq![
                HostCall::Publish(funded_event(s, funder, id, amount)),
            ])
        }),
{
    let v = s.invoice(id);
    let t = funded(s, funder, id, amount);
    let taken = contribution_taken(s, funder, id, amount);
    assert(taken.lp_ids(funder) == s.lp_ids(funder));
    lemma_basis_points(amount as int, v.discount_rate as int);
    lemma_basis_points(v.amount as int, v.discount_rate as int);
}

/// The two ways of writing a discount agree.
pub(crate) proof fn lemma_basis_points(amount: int, rate: int)
    ensures
        net_of(amount, rate) == amount - basis_points(amount, rate),
        scaled(amount, rate) == basis_points(amount, rate),
{
}

/// A contribution moves the contribution less its discount from the funder to the
/// contract. The one that completes the funding moves one thing more: the whole amount
/// of the invoice less its discount, from the contract to the freelancer, whoever put
/// in the rest. Both are in the token of the invoice.
pub proof fn law_completed_funding_pays_the_freelancer(
    env: &mut Env,
    funder: Address,
    invoice_id: u64,
    amount: i128,
    r: Result<(), ContractError>,
)
    requires
        call_ensures(
            InvoiceLiquidityContract::fund_invoice,
            (env, funder, invoice_id, amount),
            r,
        ),
        r is Ok,
    ensures
        went_on(old(env)@, final(env)@),
        ({
            let s = old(env)@;
            let v = s.persistent.invoices[invoice_id];
            let rate = v.discount_rate as int;
            let paid_in = HostCall::Transfer {
                token: v.token,
                from: funder,
                to: s.contract,
                amount: (amount - basis_points(amount as int, rate)) as i128,
            };
            let paid_out = HostCall::Transfer {
                token: v.token,
                from: s.contract,
                to: v.freelancer,
                amount: (v.amount - basis_points(v.amount as int, rate)) as i128,
            };
            transfers(added(s, final(env)@)) == (if v.amount_funded + amount == v.amount {
                seq![paid_in, paid_out]
            } else {
                seq![paid_in]
            })
        }),
{
    let s = old(env)@;
    let t = final(env)@;
    let a = added(s, t);
    let v = s.persistent.invoices[invoice_id];
    lemma_funded_calls(s, funder, invoice_id, amount);
    let head = seq![HostCall::RequireAuth(funder)];
    let n = if v.amount_funded + amount == v.amount {
        2int
    } else {
        1int
    };
    let moved = a.subrange(1, 1 + n);
    let tail = a.skip(1 + n);
    assert(t.calls =~= s.calls + a);
    assert(a =~= head + moved + tail);
    assert forall|i: int| 0 <= i < tail.len() implies !(#[trigger] tail[i] is Transfer) by {}
    lemma_transfers_in_the_middle(a, head, moved, tail);
}

/// Many parts cost next to no more than the whole at once: less than a unit for every
/// part.
proof fn lemma_parts_cost_little_more(list: Seq<(Address, i128)>, rate: int)
    requires
        no_debts(list),
        0 <= rate,
        total(list) * rate <= i128::MAX,
        list.len() > 0,
    ensures
        refund_total(list, rate) < net_of(total(list), rate) + list.len(),
    decreases list.len(),
{
    let rest = list.drop_last();
    let a = total(rest);
    let b = list.last().1 as int;
    lemma_no_debts_in_part(list, list.len() - 1);
    lemma_total_nonnegative(rest);
    assert(list[list.len() - 1].1 >= 0);
    assert((a + b) * rate == a * rate + b * rate && 0 <= a * rate && 0 <= b * rate)
        by (nonlinear_arith)
        requires
            0 <= a,
            0 <= b,
            0 <= rate,
    ;
    if rest.len() > 0 {
        lemma_parts_cost_little_more(rest, rate);
    } else {
        assert(0 * rate == 0) by (nonlinear_arith);
    }
}

/// What the refunds bring the contract and those who are not on the list.
proof fn lemma_refunds_received(
    list: Seq<(Address, i128)>,
    rate: int,
    token: Address,
    contract: Address,
    who: Address,
)
    requires
        forall|i: int| 0 <= i < list.len() ==> (#[trigger] list[i]).0 != who,
        0 <= rate,
    ensures
        received(refund_calls(list, rate, token, contract), token, who) == (if who == contract {
            -refund_total(list, rate)
        } else {
            0
        }),
    decreases list.len(),
{
    if list.len() > 0 {
        let rest = list.drop_last();
        assert forall|i: int| 0 <= i < rest.len() implies (#[trigger] rest[i]).0 != who by {
            assert(rest[i] == list[i]);
        }
        assert(list[list.len() - 1].0 != who);
        lemma_refunds_received(rest, rate, token, contract, who);
        lemma_net_fits(list.last().1 as int, rate);
        assert(refund_calls(list, rate, token, contract).drop_last() =~= refund_calls(
            rest,
            rate,
            token,
            contract,
        ));
    }
}

/// What the contribution that completes the funding brings `who`.
proof fn lemma_completed_received(
    s: EnvView,
    funder: Address,
    id: u64,
    amount: i128,
    token: Address,
    who: Address,
)
    requires
        s.invoice(id).amount_funded + amount == s.invoice(id).amount,
    ensures
        ({
            let v = s.invoice(id);
            received(funded(s, funder, id, amount).calls, token, who) == received(
                s.calls,
                token,
                who,
            ) + gain(
                HostCall::Transfer {
                    token: v.token,
                    from: funder,
                    to: s.contract,
                    amount: net_of(amount as int, v.discount_rate as int) as i128,
                },
                token,
                who,
            ) + gain(
                HostCall::Transfer {
                    token: v.token,
                    from: s.contract,
                    to: v.freelancer,
                    amount: net_of(v.amount as int, v.discount_rate as int) as i128,
                },
                token,
                who,
            )
        }),
{
    let t = funded(s, funder, id, amount);
    let a = added(s, t);
    lemma_funded_calls(s, funder, id, amount);
    lemma_basis_points(amount as int, s.invoice(id).discount_rate as int);
    lemma_basis_points(s.invoice(id).amount as int, s.invoice(id).discount_rate as int);
    let head = seq![a[0]];
    let tail = a.skip(3);
    assert(t.calls =~= (s.calls.push(a[0]).push(a[1]).push(a[2])) + tail);
    assert forall|i: int| 0 <= i < tail.len() implies !(#[trigger] tail[i] is Transfer) by {}
    lemma_received_add(s.calls.push(a[0]).push(a[1]).push(a[2]), tail, token, who);
    lemma_received_push(s.calls, a[0], token, who);
    lemma_received_push(s.calls.push(a[0]), a[1], token, who);
    lemma_received_push(s.calls.push(a[0]).push(a[1]), a[2], token, who);
    lemma_nothing_moved(tail, token, who);
}

/// Distinct funders who together put in the amount of an invoice get the freelancer the
/// amount less the discount, whoever of them comes last. The contract keeps what
/// rounding leaves: at least nothing, and less than a unit for every contribution.
pub proof fn law_contributions_pay_the_freelancer(
    s: EnvView,
    id: u64,
    parts: Seq<(LedgerInfo, (Address, i128))>,
)
    requires
        books_sound(s),
        s.has_invoice(id),
        s.invoice(id).status == InvoiceStatus::Pending,
        s.funders(id).len() == 0,
        parts.len() > 0,
        distinct_funders(contributions_of(parts)),
        all_positive(contributions_of(parts)),
        total(contributions_of(parts)) == s.invoice(id).amount,
        accepted_in_turn(s, id, parts),
        s.invoice(id).amount * s.invoice(id).discount_rate <= i128::MAX,
        s.invoice(id).freelancer != s.contract,
        forall|i: int|
            0 <= i < parts.len() ==> (#[trigger] parts[i]).1.0 != s.contract && parts[i].1.0
                != s.invoice(id).freelancer,
    ensures
        ({
            let v = s.invoice(id);
            let t = funded_in_turn(s, id, parts);
            let kept = received(t.calls, v.token, s.contract) - received(
                s.calls,
                v.token,
                s.contract,
            );
            &&& t.invoice(id).status == InvoiceStatus::Funded
            &&& received(t.calls, v.token, v.freelancer) - received(
                s.calls,
                v.token,
                v.freelancer,
            ) == v.amount - v.amount * v.discount_rate / 10_000
            &&& 0 <= kept < parts.len()
        }),
{
    let v = s.invoice(id);
    let rate = v.discount_rate as int;
    let (token, c, freelancer) = (v.token, s.contract, v.freelancer);
    let list = contributions_of(parts);
    let rest = parts.drop_last();
    let before = contributions_of(rest);
    let (ledger, (funder, amount)) = parts.last();
    assert(before =~= list.drop_last());
    assert(list.last() == (funder, amount));
    assert(list[list.len() - 1].1 > 0);
    assert(parts[parts.len() - 1].1.0 != c && parts[parts.len() - 1].1.0 != freelancer);
    assert forall|i: int| 0 <= i < list.len() implies (#[trigger] list[i]).1 >= 0 by {}
    assert forall|i: int| 0 <= i < before.len() implies (#[trigger] before[i]).1 > 0
        && before[i].0 != c && before[i].0 != freelancer by {
        assert(before[i] == list[i]);
        assert(parts[i].1.0 != c);
    }
    assert forall|i: int, j: int| 0 <= i < j < before.len() implies (#[trigger] before[i]).0 != (
    #[trigger] before[j]).0 by {
        assert(list[i].0 != list[j].0);
    }
    lemma_funded_in_turn(s, id, rest, token, c);
    lemma_funded_in_turn(s, id, rest, token, freelancer);
    let t = at(funded_in_turn(s, id, rest), ledger);
    lemma_refunds_received(before, rate, token, c, c);
    lemma_refunds_received(before, rate, token, c, freelancer);
    lemma_completed_received(t, funder, id, amount, token, c);
    lemma_completed_received(t, funder, id, amount, token, freelancer);
    lemma_net_fits(amount as int, rate);
    lemma_net_fits(v.amount as int, rate);
    law_contributions_cover_the_payout(list, rate);
    lemma_parts_cost_little_more(list, rate);
    assert(v.amount * rate >= 0) by (nonlinear_arith)
        requires
            v.amount >= 0,
            rate >= 0,
    ;
}

// ----------------------------------------------------------------
// Refunds
// ----------------------------------------------------------------

/// What giving everyone back what they paid comes to: one transfer for every entry of
/// the list, in its order.
pub(crate) proof fn lemma_refund_row(
    list: Seq<(Address, i128)>,
    rate: int,
    token: Address,
    contract: Address,
)
    ensures
        refund_calls(list, rate, token, contract) == Seq::new(
            list.len(),
            |i: int|
                HostCall::Transfer {
                    token,
                    from: contract,
                    to: list[i].0,
                    amount: (list[i].1 - basis_points(list[i].1 as int, rate)) as i128,
                },
        ),
    decreases list.len(),
{
    if list.len() > 0 {
        lemma_refund_row(list.drop_last(), rate, token, contract);
        lemma_basis_points(list.last().1 as int, rate);
    }
}

/// What the refunds move: to everyone on the list their contribution less its
/// discount, and nothing else.
proof fn lemma_refunds_sent(
    list: Seq<(Address, i128)>,
    rate: int,
    token: Address,
    contract: Address,
    to: Address,
)
    requires
        distinct_funders(list),
        0 <= rate,
    ensures
        ({
            let calls = refund_calls(list, rate, token, contract);
            &&& forall|i: int|
                0 <= i < list.len() && (#[trigger] list[i]).0 == to ==> sent(
                    calls,
                    token,
                    contract,
                    to,
                ) == list[i].1 - basis_points(list[i].1 as int, rate)
            &&& (forall|i: int| 0 <= i < list.len() ==> (#[trigger] list[i]).0 != to) ==> sent(
                calls,
                token,
                contract,
                to,
            ) == 0
        }),
    decreases list.len(),
{
    if list.len() > 0 {
        let rest = list.drop_last();
        let calls = refund_calls(list, rate, token, contract);
        assert forall|i: int, j: int| 0 <= i < j < rest.len() implies (#[trigger] rest[i]).0 != (
        #[trigger] rest[j]).0 by {
            assert(list[i].0 != list[j].0);
        }
        lemma_refunds_sent(rest, rate, token, contract, to);
        lemma_net_fits(list.last().1 as int, rate);
        lemma_basis_points(list.last().1 as int, rate);
        assert(calls.drop_last() =~= refund_calls(rest, rate, token, contract));
        if list.last().0 == to {
            assert forall|i: int| 0 <= i < rest.len() implies (#[trigger] rest[i]).0 != to by {
                assert(list[i].0 != list[list.len() - 1].0);
            }
        } else {
            assert forall|i: int| 0 <= i < list.len() && (#[trigger] list[i]).0 == to implies sent(
                calls,
                token,
                contract,
                to,
            ) == list[i].1 - basis_points(list[i].1 as int, rate) by {
                assert(rest[i] == list[i]);
            }
            if forall|i: int| 0 <= i < list.len() ==> (#[trigger] list[i]).0 != to {
                assert forall|i: int| 0 <= i < rest.len() implies (#[trigger] rest[i]).0 != to by {
                    assert(rest[i] == list[i]);
                }
            }
        }
    }
}

/// Money moves in the middle of a row of host calls only.
proof fn lemma_transfers_in_the_middle(
    a: Seq<HostCall>,
    head: Seq<HostCall>,
    middle: Seq<HostCall>,
    tail: Seq<HostCall>,
)
    requires
        a == head + middle + tail,
        forall|i: int| 0 <= i < head.len() ==> !(#[trigger] head[i] is Transfer),
        forall|i: int| 0 <= i < middle.len() ==> (#[trigger] middle[i] is Transfer),
        forall|i: int| 0 <= i < tail.len() ==> !(#[trigger] tail[i] is Transfer),
    ensures
        transfers(a) == middle,
{
    lemma_no_transfers(head);
    lemma_no_transfers(tail);
    lemma_all_transfers(middle);
    lemma_transfers_add(head, middle);
    lemma_transfers_add(head + middle, tail);
    assert(transfers(a) =~= middle);
}

/// A claim of default gives everyone on the list of the invoice back what they paid,
/// their contribution less its discount, and moves nothing else. The event announces
/// the sum of what was moved.
pub proof fn law_default_refunds_every_funder(
    env: &mut Env,
    funder: Address,
    invoice_id: u64,
    r: Result<(), ContractError>,
    to: Address,
)
    requires
        call_ensures(InvoiceLiquidityContract::claim_default, (env, funder, invoice_id), r),
        r is Ok,
        books_sound(old(env)@),
    ensures
        went_on(old(env)@, final(env)@),
        ({
            let s = old(env)@;
            let v = s.persistent.invoices[invoice_id];
            let list = s.persistent.invoice_funders[invoice_id];
            let rate = v.discount_rate as int;
            let calls = added(s, final(env)@);
            &&& transfers(calls) == Seq::new(
                list.len(),
                |i: int|
                    HostCall::Transfer {
                        token: v.token,
                        from: s.contract,
                        to: list[i].0,
                        amount: (list[i].1 - basis_points(list[i].1 as int, rate)) as i128,
                    },
            )
            &&& forall|i: int|
                0 <= i < list.len() && (#[trigger] list[i]).0 == to ==> sent(
                    calls,
                    v.token,
                    s.contract,
                    to,
                ) == list[i].1 - basis_points(list[i].1 as int, rate)
            &&& (forall|i: int| 0 <= i < list.len() ==> (#[trigger] list[i]).0 != to) ==> sent(
                calls,
                v.token,
                s.contract,
                to,
            ) == 0
            &&& calls.last() matches HostCall::Publish(Event::InvoiceDefaulted(e))
                && e.discount_amount == sum_transferred(calls) as i128
        }),
{
    let s = old(env)@;
    let t = final(env)@;
    let v = s.invoice(invoice_id);
    let list = s.funders(invoice_id);
    let rate = v.discount_rate as int;
    let a = added(s, t);
    let row = refund_calls(list, rate, v.token, s.contract);
    assert(s.has_invoice(invoice_id));
    assert(list == s.persistent.invoice_funders[invoice_id]);
    lemma_refund_row(list, rate, v.token, s.contract);
    let head = seq![HostCall::RequireAuth(funder)];
    let tail = a.skip(1 + row.len() as int);
    assert(t.calls =~= s.calls + a);
    assert(a =~= head + row + tail);
    lemma_transfers_in_the_middle(a, head, row, tail);
    lemma_sent_by_transfers(a, v.token, s.contract, to);
    lemma_refunds_sent(list, rate, v.token, s.contract, to);
    law_refunds_are_what_is_announced(list, rate, v.token, s.contract);
}

/// Cancelling gives everyone on the list of an invoice back what they paid, and moves
/// nothing else: their contribution less its discount, where it was funded in part, and
/// nothing at all where it was not funded.
pub proof fn law_cancelling_refunds_every_funder(
    env: &mut Env,
    invoice_id: u64,
    r: Result<(), ContractError>,
)
    requires
        call_ensures(InvoiceLiquidityContract::cancel_invoice, (env, invoice_id), r),
        r is Ok,
        books_sound(old(env)@),
    ensures
        went_on(old(env)@, final(env)@),
        ({
            let s = old(env)@;
            let v = s.persistent.invoices[invoice_id];
            let list = s.funders(invoice_id);
            transfers(added(s, final(env)@)) == (if v.status == InvoiceStatus::PartiallyFunded {
                Seq::new(
                    list.len(),
                    |i: int|
                        HostCall::Transfer {
                            token: v.token,
                            from: s.contract,
                            to: list[i].0,
                            amount: (list[i].1 - basis_points(
                                list[i].1 as int,
                                v.discount_rate as int,
                            )) as i128,
                        },
                )
            } else {
                Seq::empty()
            })
        }),
        old(env)@.persistent.invoices[invoice_id].status != InvoiceStatus::PartiallyFunded
            ==> total(old(env)@.funders(invoice_id)) == 0,
{
    let s = old(env)@;
    let t = final(env)@;
    let v = s.invoice(invoice_id);
    let list = s.funders(invoice_id);
    let a = added(s, t);
    assert(s.has_invoice(invoice_id));
    let row = if v.status == InvoiceStatus::PartiallyFunded {
        refund_calls(list, v.discount_rate as int, v.token, s.contract)
    } else {
        Seq::empty()
    };
    lemma_refund_row(list, v.discount_rate as int, v.token, s.contract);
    let head = seq![HostCall::RequireAuth(v.freelancer)];
    let tail = a.skip(1 + row.len() as int);
    assert(t.calls =~= s.calls + a);
    assert(a =~= head + row + tail);
    lemma_transfers_in_the_middle(a, head, row, tail);
}

/// A dispute that is upheld gives everyone on the list of the invoice back what they
/// paid; one that is rejected moves nothing.
pub proof fn law_upheld_dispute_refunds_every_funder(
    env: &mut Env,
    invoice_id: u64,
    resolution_hash: Hash32,
    resolution: u32,
    r: Result<(), ContractError>,
)
    requires
        call_ensures(
            InvoiceLiquidityContract::resolve_dispute,
            (env, invoice_id, resolution_hash, resolution),
            r,
        ),
        r is Ok,
    ensures
        went_on(old(env)@, final(env)@),
        ({
            let s = old(env)@;
            let v = s.persistent.invoices[invoice_id];
            let list = s.funders(invoice_id);
            transfers(added(s, final(env)@)) == (if resolution == 1 {
                Seq::new(
                    list.len(),
                    |i: int|
                        HostCall::Transfer {
                            token: v.token,
                            from: s.contract,
                            to: list[i].0,
                            amount: (list[i].1 - basis_points(
                                list[i].1 as int,
                                v.discount_rate as int,
                            )) as i128,
                        },
                )
            } else {
                Seq::empty()
            })
        }),
{
    let s = old(env)@;
    let t = final(env)@;
    let v = s.invoice(invoice_id);
    let list = s.funders(invoice_id);
    let a = added(s, t);
    let row = if resolution == 1 {
        refund_calls(list, v.discount_rate as int, v.token, s.contract)
    } else {
        Seq::empty()
    };
    lemma_refund_row(list, v.discount_rate as int, v.token, s.contract);
    let head = seq![HostCall::RequireAuth(s.instance.admin->0)];
    let tail = a.skip(1 + row.len() as int);
    assert(t.calls =~= s.calls + a);
    assert(a =~= head + row + tail);
    lemma_transfers_in_the_middle(a, head, row, tail);
}

// ----------------------------------------------------------------
// Settlement
// ----------------------------------------------------------------

/// Whether a host call moves more than nothing.
pub open spec fn moves_something(call: HostCall) -> bool {
    match call {
        HostCall::Transfer { amount, .. } => amount > 0,
        _ => false,
    }
}

pub(crate) proof fn lemma_portion(pot: int, part: int, whole: int)
    requires
        in_i128(pot),
        0 <= part <= whole <= i128::MAX,
        0 < whole,
    ensures
        portion(pot, part, whole) == (if share_of(pot, part, whole) > 0 {
            share_of(pot, part, whole)
        } else {
            0
        }),
        0 <= portion(pot, part, whole) <= i128::MAX,
{
    if pot >= 0 {
        lemma_share_bound(pot, part, whole);
        assert(0 <= pot * part) by (nonlinear_arith)
            requires
                0 <= pot,
                0 <= part,
        ;
        assert(pot == 0 ==> pot * part == 0) by (nonlinear_arith);
    } else {
        assert(pot * part <= 0) by (nonlinear_arith)
            requires
                pot < 0,
                0 <= part,
        ;
        let n = product(pot, part);
        assert(-n / whole >= 0) by (nonlinear_arith)
            requires
                n <= 0,
                0 < whole,
        ;
    }
}

/// What handing out a pot comes to: one transfer for every entry of the list, in its
/// order, where there is anything to transfer.
pub(crate) proof fn lemma_payout_row(
    list: Seq<(Address, i128)>,
    pot: int,
    whole: int,
    token: Address,
    contract: Address,
)
    requires
        no_debts(list),
        total(list) <= whole,
        0 < whole <= i128::MAX,
        in_i128(pot),
    ensures
        payout_calls(list, pot, whole, token, contract) == Seq::new(
            list.len(),
            |i: int|
                HostCall::Transfer {
                    token,
                    from: contract,
                    to: list[i].0,
                    amount: portion(pot, list[i].1 as int, whole) as i128,
                },
        ).filter(|call: HostCall| moves_something(call)),
    decreases list.len(),
{
    let row = Seq::new(
        list.len(),
        |i: int|
            HostCall::Transfer {
                token,
                from: contract,
                to: list[i].0,
                amount: portion(pot, list[i].1 as int, whole) as i128,
            },
    );
    reveal(Seq::filter);
    if list.len() > 0 {
        let rest = list.drop_last();
        lemma_no_debts_in_part(list, list.len() - 1);
        lemma_total_nonnegative(rest);
        lemma_payout_row(rest, pot, whole, token, contract);
        lemma_portion(pot, list.last().1 as int, whole);
        assert(row.drop_last() =~= Seq::new(
            rest.len(),
            |i: int|
                HostCall::Transfer {
                    token,
                    from: contract,
                    to: rest[i].0,
                    amount: portion(pot, rest[i].1 as int, whole) as i128,
                },
        ));
    }
}

/// What the payouts move: to everyone on the list their portion of the pot, and nothing
/// else.
proof fn lemma_payouts_sent(
    list: Seq<(Address, i128)>,
    pot: int,
    whole: int,
    token: Address,
    contract: Address,
    to: Address,
)
    requires
        no_debts(list),
        distinct_funders(list),
        total(list) <= whole,
        0 < whole <= i128::MAX,
        in_i128(pot),
    ensures
        ({
            let calls = payout_calls(list, pot, whole, token, contract);
            &&& forall|i: int|
                0 <= i < list.len() && (#[trigger] list[i]).0 == to ==> sent(
                    calls,
                    token,
                    contract,
                    to,
                ) == portion(pot, list[i].1 as int, whole)
            &&& (forall|i: int| 0 <= i < list.len() ==> (#[trigger] list[i]).0 != to) ==> sent(
                calls,
                token,
                contract,
                to,
            ) == 0
            &&& forall|i: int| 0 <= i < calls.len() ==> (#[trigger] calls[i] is Transfer)
        }),
    decreases list.len(),
{
    if list.len() > 0 {
        let rest = list.drop_last();
        let calls = payout_calls(list, pot, whole, token, contract);
        assert forall|i: int, j: int| 0 <= i < j < rest.len() implies (#[trigger] rest[i]).0 != (
        #[trigger] rest[j]).0 by {
            assert(list[i].0 != list[j].0);
        }
        lemma_no_debts_in_part(list, list.len() - 1);
        lemma_total_nonnegative(rest);
        lemma_payouts_sent(rest, pot, whole, token, contract, to);
        lemma_portion(pot, list.last().1 as int, whole);
        let before = payout_calls(rest, pot, whole, token, contract);
        if share_of(pot, list.last().1 as int, whole) > 0 {
            assert(calls.drop_last() =~= before);
        } else {
            assert(calls == before);
        }
        if list.last().0 == to {
            assert forall|i: int| 0 <= i < rest.len() implies (#[trigger] rest[i]).0 != to by {
                assert(list[i].0 != list[list.len() - 1].0);
            }
        } else {
            assert forall|i: int| 0 <= i < list.len() && (#[trigger] list[i]).0 == to implies sent(
                calls,
                token,
                contract,
                to,
            ) == portion(pot, list[i].1 as int, whole) by {
                assert(rest[i] == list[i]);
            }
            if forall|i: int| 0 <= i < list.len() ==> (#[trigger] list[i]).0 != to {
                assert forall|i: int| 0 <= i < rest.len() implies (#[trigger] rest[i]).0 != to by {
                    assert(rest[i] == list[i]);
                }
            }
        }
    }
}

/// The host calls that a settlement adds, one after the other.
pub(crate) proof fn lemma_settled_calls(s: EnvView, id: u64, amount: i128)
    requires
        books_sound(s),
        s.has_invoice(id),
    ensures
        ({
            let v = s.invoice(id);
            let list = s.funders(id);
            let fee = basis_points(
                v.amount as int,
                match s.instance.fee_rate {
                    Some(rate) => rate as int,
                    None => 0,
                },
            );
            let told = match s.instance.distribution_contract {
                Some(contract) => seq![
                    HostCall::AccrueSettlement {
                        contract,
                        freelancer: v.freelancer,
                        payer: v.payer,
                        on_time: s.ledger.timestamp <= v.due_date,
                    },
                ],
                None => Seq::empty(),
            };
            &&& fee >= 0
            &&& settlement_fee(s, id) == fee
            &&& settlement_pot(s, id) == v.amount - fee
            &&& in_i128(v.amount - fee)
            &&& settled(s, id, amount).calls == s.calls + seq![
                HostCall::RequireAuth(v.payer),
            ] + (seq![
                HostCall::Transfer { token: v.token, from: v.payer, to: s.contract, amount },
            ] + (if fee > 0 {
                seq![
                    HostCall::Transfer {
                        token: v.token,
                        from: s.contract,
                        to: s.instance.admin->0,
                        amount: fee as i128,
                    },
                ]
            } else {
                Seq::empty()
            }) + payout_calls(list, v.amount - fee, v.amount as int, v.token, s.contract)) + (seq![
                HostCall::ExtendTtl {
                    key: DataKey::Invoice(v.id),
                    threshold: 1_000_000,
                    extend_to: 2_000_000,
                },
            ] + told + seq![HostCall::Publish(paid_event(s, id))])
        }),
{
    let v = s.invoice(id);
    let rate = or_default(s.instance.fee_rate, 0) as int;
    lemma_basis_points(v.amount as int, rate);
    lemma_net_fits(v.amount as int, rate);
    assert(v.amount * rate >= 0) by (nonlinear_arith)
        requires
            v.amount >= 0,
            rate >= 0,
    ;
}

/// The transfers of a settlement: the payment, the fee and the payouts.
spec fn settlement_row(s: EnvView, id: u64, amount: i128) -> (
    Seq<HostCall>,
    Seq<HostCall>,
    Seq<HostCall>,
) {
    let v = s.invoice(id);
    let fee = settlement_fee(s, id);
    (
        seq![HostCall::Transfer { token: v.token, from: v.payer, to: s.contract, amount }],
        if fee > 0 {
            seq![
                HostCall::Transfer {
                    token: v.token,
                    from: s.contract,
                    to: s.instance.admin->0,
                    amount: fee as i128,
                },
            ]
        } else {
            Seq::empty()
        },
        payout_calls(
            s.funders(id),
            settlement_pot(s, id),
            v.amount as int,
            v.token,
            s.contract,
        ),
    )
}

proof fn lemma_payouts_are_transfers(
    list: Seq<(Address, i128)>,
    pot: int,
    whole: int,
    token: Address,
    contract: Address,
)
    ensures
        ({
            let calls = payout_calls(list, pot, whole, token, contract);
            forall|i: int| 0 <= i < calls.len() ==> (#[trigger] calls[i] is Transfer)
        }),
    decreases list.len(),
{
    if list.len() > 0 {
        lemma_payouts_are_transfers(list.drop_last(), pot, whole, token, contract);
    }
}

proof fn lemma_settlement_transfers(s: EnvView, id: u64, amount: i128)
    requires
        books_sound(s),
        s.has_invoice(id),
    ensures
        ({
            let t = settled(s, id, amount);
            let (paid, charged, row) = settlement_row(s, id, amount);
            &&& went_on(s, t)
            &&& transfers(added(s, t)) == paid + charged + row
        }),
{
    let t = settled(s, id, amount);
    let v = s.invoice(id);
    let (paid, charged, row) = settlement_row(s, id, amount);
    let a = added(s, t);
    lemma_settled_calls(s, id, amount);
    lemma_payouts_are_transfers(
        s.funders(id),
        settlement_pot(s, id),
        v.amount as int,
        v.token,
        s.contract,
    );
    let head = seq![HostCall::RequireAuth(v.payer)];
    let middle = paid + charged + row;
    let tail = a.skip(1 + middle.len() as int);
    assert(t.calls =~= s.calls + a);
    assert(a =~= head + middle + tail);
    assert forall|j: int| 0 <= j < middle.len() implies (#[trigger] middle[j] is Transfer) by {
        if j >= paid.len() + charged.len() {
            assert(middle[j] == row[j - paid.len() - charged.len()]);
        }
    }
    assert forall|j: int| 0 <= j < tail.len() implies !(#[trigger] tail[j] is Transfer) by {}
    lemma_transfers_in_the_middle(a, head, middle, tail);
}

proof fn lemma_settlement_sent(s: EnvView, id: u64, amount: i128, to: Address)
    requires
        books_sound(s),
        s.has_invoice(id),
    ensures
        ({
            let v = s.invoice(id);
            let (paid, charged, row) = settlement_row(s, id, amount);
            let calls = added(s, settled(s, id, amount));
            &&& sent(calls, v.token, s.contract, to) == sent(row, v.token, s.contract, to) + (if to
                == s.instance.admin->0 {
                settlement_fee(s, id)
            } else {
                0
            }) + (if v.payer == s.contract && to == s.contract {
                amount as int
            } else {
                0
            })
            &&& sum_transferred(calls) == amount + settlement_fee(s, id) + sum_transferred(row)
        }),
{
    let v = s.invoice(id);
    let (paid, charged, row) = settlement_row(s, id, amount);
    let calls = added(s, settled(s, id, amount));
    let fee = settlement_fee(s, id);
    lemma_settlement_transfers(s, id, amount);
    lemma_settled_calls(s, id, amount);
    lemma_sent_by_transfers(calls, v.token, s.contract, to);
    lemma_sent_add(paid, charged, v.token, s.contract, to);
    lemma_sent_add(paid + charged, row, v.token, s.contract, to);
    lemma_net_fits(v.amount as int, or_default(s.instance.fee_rate, 0) as int);
    reveal_with_fuel(sent, 2);
    reveal_with_fuel(sum_transferred, 2);
    assert(paid.drop_last() =~= Seq::empty());
    assert(paid.last() == paid[0]);
    if fee > 0 {
        assert(charged.drop_last() =~= Seq::empty());
        assert(charged.last() == charged[0]);
    }
}

/// The payment that settles an invoice, whenever it comes, moves the payment into the
/// contract, then the fee on the amount to the admin, where there is a fee, and then,
/// in the order of the list, to every funder their portion of the amount less the fee.
/// It moves nothing else.
///
/// So everyone on the list is sent exactly their portion, and the admin the fee on top.
pub proof fn law_settlement_pays_every_funder(
    env: &mut Env,
    invoice_id: u64,
    amount: i128,
    r: Result<(), ContractError>,
    i: int,
)
    requires
        call_ensures(InvoiceLiquidityContract::mark_paid, (env, invoice_id, amount), r),
        r is Ok,
        books_sound(old(env)@),
        old(env)@.persistent.invoices[invoice_id].amount_paid + amount
            >= old(env)@.persistent.invoices[invoice_id].amount,
        0 <= i < old(env)@.persistent.invoice_funders[invoice_id].len(),
    ensures
        went_on(old(env)@, final(env)@),
        ({
            let s = old(env)@;
            let v = s.persistent.invoices[invoice_id];
            let list = s.persistent.invoice_funders[invoice_id];
            let calls = added(s, final(env)@);
            let fee = basis_points(
                v.amount as int,
                match s.instance.fee_rate {
                    Some(rate) => rate as int,
                    None => 0,
                },
            );
            let to = list[i].0;
            &&& transfers(calls) == seq![
                HostCall::Transfer { token: v.token, from: v.payer, to: s.contract, amount },
            ] + (if fee > 0 {
                seq![
                    HostCall::Transfer {
                        token: v.token,
                        from: s.contract,
                        to: s.instance.admin->0,
                        amount: fee as i128,
                    },
                ]
            } else {
                Seq::empty()
            }) + Seq::new(
                list.len(),
                |j: int|
                    HostCall::Transfer {
                        token: v.token,
                        from: s.contract,
                        to: list[j].0,
                        amount: portion(v.amount - fee, list[j].1 as int, v.amount as int) as i128,
                    },
            ).filter(|call: HostCall| moves_something(call))
            &&& sent(calls, v.token, s.contract, to) == portion(
                v.amount - fee,
                list[i].1 as int,
                v.amount as int,
            ) + (if to == s.instance.admin->0 {
                fee
            } else {
                0
            }) + (if v.payer == s.contract && to == s.contract {
                amount as int
            } else {
                0
            })
        }),
{
    let s = old(env)@;
    let t = final(env)@;
    let v = s.invoice(invoice_id);
    let list = s.funders(invoice_id);
    assert(s.has_invoice(invoice_id));
    assert(list == s.persistent.invoice_funders[invoice_id]);
    lemma_settled_calls(s, invoice_id, amount);
    let pot = settlement_pot(s, invoice_id);
    lemma_payout_row(list, pot, v.amount as int, v.token, s.contract);
    lemma_payouts_sent(list, pot, v.amount as int, v.token, s.contract, list[i].0);
    lemma_settlement_transfers(s, invoice_id, amount);
    lemma_settlement_sent(s, invoice_id, amount, list[i].0);
    assert(t == settled(s, invoice_id, amount));
}

/// What a settlement leaves in the contract of the amount of the invoice, whenever it
/// comes: at least nothing, and less than a unit for every funder, for fees up to the
/// whole and as long as the products can be held. A sole funder without a fee to pay is
/// sent the full amount.
pub proof fn law_settlement_hands_out_the_amount(
    env: &mut Env,
    invoice_id: u64,
    amount: i128,
    r: Result<(), ContractError>,
)
    requires
        call_ensures(InvoiceLiquidityContract::mark_paid, (env, invoice_id, amount), r),
        r is Ok,
        books_sound(old(env)@),
        ({
            let s = old(env)@;
            let v = s.persistent.invoices[invoice_id];
            let list = s.persistent.invoice_funders[invoice_id];
            let rate = match s.instance.fee_rate {
                Some(rate) => rate as int,
                None => 0,
            };
            &&& v.amount_paid + amount >= v.amount
            &&& rate <= 10_000
            &&& forall|i: int|
                0 <= i < list.len() ==> (v.amount - basis_points(v.amount as int, rate)) * (
                #[trigger] list[i]).1 <= i128::MAX
        }),
    ensures
        ({
            let s = old(env)@;
            let v = s.persistent.invoices[invoice_id];
            let list = s.persistent.invoice_funders[invoice_id];
            let calls = added(s, final(env)@);
            let left = v.amount - (sum_transferred(calls) - amount);
            &&& 0 <= left < list.len()
            &&& list.len() == 1 && v.payer != s.contract && (s.instance.fee_rate is None
                || s.instance.fee_rate == Some(0u32)) ==> left == 0 && sent(
                calls,
                v.token,
                s.contract,
                list[0].0,
            ) == v.amount
        }),
{
    let s = old(env)@;
    let t = final(env)@;
    let v = s.invoice(invoice_id);
    let list = s.funders(invoice_id);
    assert(s.has_invoice(invoice_id));
    assert(list == s.persistent.invoice_funders[invoice_id]);
    lemma_settled_calls(s, invoice_id, amount);
    let pot = settlement_pot(s, invoice_id);
    law_discount_is_within_the_amount(
        v.amount as int,
        or_default(s.instance.fee_rate, 0) as int,
    );
    assert forall|i: int| 0 <= i < list.len() implies in_i128(pot * (#[trigger] list[i]).1) by {
        assert(pot * list[i].1 >= 0) by (nonlinear_arith)
            requires
                pot >= 0,
                list[i].1 >= 0,
        ;
    }
    law_settlement_leaves_less_than_the_number_of_funders(s, invoice_id, amount as int);
    lemma_settlement_sent(s, invoice_id, amount, list[0].0);
    assert(t == settled(s, invoice_id, amount));
    if list.len() == 1 && (s.instance.fee_rate is None || s.instance.fee_rate == Some(0u32)) {
        let whole = v.amount as int;
        assert(list.drop_last() =~= Seq::empty());
        reveal_with_fuel(total, 2);
        assert(list[0].1 == whole);
        assert(whole * 0 == 0) by (nonlinear_arith);
        assert(pot == whole);
        assert(whole * whole / whole == whole && 0 <= whole * whole) by (nonlinear_arith)
            requires
                whole > 0,
        ;
        assert(pot * list[0].1 <= i128::MAX);
        lemma_payouts_sent(list, pot, whole, v.token, s.contract, list[0].0);
    }
}

// ----------------------------------------------------------------
// Through the life of an invoice
// ----------------------------------------------------------------

/// Books do not become unsound by waiting.
proof fn lemma_sound_at(s: EnvView, ledger: LedgerInfo)
    requires
        books_sound(s),
    ensures
        books_sound(EnvView { ledger, ..s }),
{
    let t = EnvView { ledger, ..s };
    assert forall|id: u64| #[trigger] t.has_invoice(id) implies 1 <= id <= t.invoice_count()
        && invoice_sound(t.invoice(id), id, t.funders(id)) by {
        assert(s.has_invoice(id));
    }
    assert forall|id: u64| !#[trigger] t.has_invoice(id) implies t.funders(id).len() == 0 by {
        assert(!s.has_invoice(id));
    }
}

/// What a sole funder pays for an invoice that nobody has funded.
proof fn lemma_sole_funding(
    env: &mut Env,
    lp: Address,
    id: u64,
    amount: i128,
    r: Result<(), ContractError>,
)
    requires
        call_ensures(InvoiceLiquidityContract::fund_invoice, (env, lp, id, amount), r),
        r is Ok,
        books_sound(old(env)@),
        old(env)@.funders(id).len() == 0,
        amount == old(env)@.persistent.invoices[id].amount,
        lp != old(env)@.contract,
    ensures
        ({
            let s = old(env)@;
            let t = final(env)@;
            let v = s.persistent.invoices[id];
            &&& t.funders(id) == seq![(lp, amount)]
            &&& t.persistent.invoice_funders.contains_key(id)
            &&& t.persistent.invoices[id] == (Invoice {
                amount_funded: amount,
                status: InvoiceStatus::Funded,
                funder: Some(lp),
                funded_at: t.persistent.invoices[id].funded_at,
                ..v
            })
            &&& t.instance == s.instance
            &&& t.contract == s.contract
            &&& sent(added(s, t), v.token, lp, s.contract) == amount - basis_points(
                amount as int,
                v.discount_rate as int,
            )
        }),
{
    let s = old(env)@;
    let t = final(env)@;
    let v = s.persistent.invoices[id];
    assert(s.has_invoice(id));
    assert(total(s.funders(id)) == 0);
    assert(v.amount_funded + amount == v.amount);
    law_completed_funding_pays_the_freelancer(env, lp, id, amount, r);
    lemma_sent_by_transfers(added(s, t), v.token, lp, s.contract);
    lemma_basis_points(amount as int, v.discount_rate as int);
    lemma_net_fits(amount as int, v.discount_rate as int);
    let row = transfers(added(s, t));
    reveal_with_fuel(sent, 3);
    assert(row.drop_last().drop_last() =~= Seq::empty());
    assert(row.drop_last().last() == row[0]);
    assert(row.last() == row[1]);
    assert(t.funders(id) =~= seq![(lp, amount)]);
}

/// What a sole funder earns on an invoice that is settled, whenever it is, is the yield
/// that can be claimed on it: what they are sent at the settlement less what they paid for
/// the invoice. That is the discount, as long as there is no fee and the square of the
/// amount can be held.
pub proof fn law_a_sole_funder_earns_the_yield(
    fund: &mut Env,
    pay: &mut Env,
    claim: &mut Env,
    lp: Address,
    id: u64,
    amount: i128,
    funding: Result<(), ContractError>,
    payment: Result<(), ContractError>,
    earned: Result<i128, ContractError>,
)
    requires
        call_ensures(InvoiceLiquidityContract::fund_invoice, (fund, lp, id, amount), funding),
        call_ensures(InvoiceLiquidityContract::mark_paid, (pay, id, amount), payment),
        call_ensures(InvoiceLiquidityContract::claim_yield, (claim, id), earned),
        funding is Ok,
        payment is Ok,
        old(pay)@ == (EnvView { ledger: old(pay)@.ledger, ..final(fund)@ }),
        old(claim)@ == (EnvView { ledger: old(claim)@.ledger, ..final(pay)@ }),
        books_sound(old(fund)@),
        old(fund)@.funders(id).len() == 0,
        amount == old(fund)@.persistent.invoices[id].amount,
        amount * amount <= i128::MAX,
        old(fund)@.instance.fee_rate is None || old(fund)@.instance.fee_rate == Some(0u32),
        lp != old(fund)@.contract,
        old(fund)@.persistent.invoices[id].payer != old(fund)@.contract,
    ensures
        ({
            let v = old(fund)@.persistent.invoices[id];
            let c = old(fund)@.contract;
            &&& earned is Ok
            &&& earned->Ok_0 == sent(
                added(old(pay)@, final(pay)@),
                v.token,
                c,
                lp,
            ) - sent(added(old(fund)@, final(fund)@), v.token, lp, c)
            &&& earned->Ok_0 == basis_points(amount as int, v.discount_rate as int)
        }),
{
    let s = old(fund)@;
    let t = old(pay)@;
    let u = old(claim)@;
    let v = s.persistent.invoices[id];
    assert(s.has_invoice(id));
    lemma_sole_funding(fund, lp, id, amount, funding);
    law_funding_keeps_books_sound(s, lp, id, amount);
    lemma_sound_at(final(fund)@, t.ledger);
    assert(t.has_invoice(id));
    let list = t.funders(id);
    assert(list =~= seq![(lp, amount)]);
    assert(amount * 0 == 0) by (nonlinear_arith);
    law_settlement_hands_out_the_amount(pay, id, amount, payment);
    lemma_basis_points(amount as int, v.discount_rate as int);
    lemma_net_fits(amount as int, v.discount_rate as int);
    assert(u.funders(id) == list);
    assert(list[0].0 == lp);
}

/// A default gives a sole funder back exactly what they paid for the invoice.
pub proof fn law_a_default_returns_what_was_paid(
    fund: &mut Env,
    claim: &mut Env,
    lp: Address,
    id: u64,
    amount: i128,
    funding: Result<(), ContractError>,
    r: Result<(), ContractError>,
)
    requires
        call_ensures(InvoiceLiquidityContract::fund_invoice, (fund, lp, id, amount), funding),
        call_ensures(InvoiceLiquidityContract::claim_default, (claim, lp, id), r),
        funding is Ok,
        r is Ok,
        old(claim)@ == (EnvView { ledger: old(claim)@.ledger, ..final(fund)@ }),
        books_sound(old(fund)@),
        old(fund)@.funders(id).len() == 0,
        amount == old(fund)@.persistent.invoices[id].amount,
        lp != old(fund)@.contract,
    ensures
        ({
            let v = old(fund)@.persistent.invoices[id];
            let c = old(fund)@.contract;
            sent(added(old(claim)@, final(claim)@), v.token, c, lp) == sent(
                added(old(fund)@, final(fund)@),
                v.token,
                lp,
                c,
            )
        }),
{
    let s = old(fund)@;
    let t = old(claim)@;
    assert(s.has_invoice(id));
    lemma_sole_funding(fund, lp, id, amount, funding);
    law_funding_keeps_books_sound(s, lp, id, amount);
    lemma_sound_at(final(fund)@, t.ledger);
    law_default_refunds_every_funder(claim, lp, id, r, lp);
    let list = t.funders(id);
    assert(list =~= seq![(lp, amount)]);
    assert(list[0].0 == lp);
}

} // verus!

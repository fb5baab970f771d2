//! What holds of the contract as a whole: what every step keeps, which steps an
//! invoice can take, and where the money can go.

use crate::host::{Address, Hash32};
use crate::invoice_liquidity::arith::in_i128;
use crate::invoice_liquidity::contributions::{
    contributed, contributes, contribution, first_entry, law_contributions_add_up,
    law_contributions_of_others_stay, law_contributors_have_an_entry, lemma_before_first,
    lemma_first_entry, total,
};
use crate::invoice_liquidity::defaults::{
    appeal_refusal, appeal_resolution_refusal, appeal_resolved, appealed, default_refusal,
    defaulted,
};
use crate::invoice_liquidity::disputes::{
    dispute_refusal, dispute_rejected, dispute_resolution_refusal, dispute_upheld, disputed,
};
use crate::invoice_liquidity::env::{empty_persistent, EnvView};
use crate::invoice_liquidity::funding::{fund_refusal, funded, funded_invoice};
use crate::invoice_liquidity::invoice::{Invoice, InvoiceParams, InvoiceStatus};
use crate::invoice_liquidity::settlement::{partially_paid, pay_refusal, settled, settles};
use crate::invoice_liquidity::submission::{
    batch_recorded, cancel_refusal, cancelled, expire_refusal, expired, item_refusal, lapsed,
    new_invoice, recorded, room_for, terms_updated, transfer_refusal, transferred, update_refusal,
};
use crate::list::{law_without_takes_out_exactly, without};
use vstd::prelude::*;

verus! {

// ----------------------------------------------------------------
// Sound books
// ----------------------------------------------------------------

/// Nobody is on a list of contributions twice.
pub open spec fn distinct_funders(list: Seq<(Address, i128)>) -> bool {
    forall|i: int, j: int|
        0 <= i < j < list.len() ==> (#[trigger] list[i]).0 != (#[trigger] list[j]).0
}

/// No contribution is negative.
pub open spec fn no_debts(list: Seq<(Address, i128)>) -> bool {
    forall|i: int| 0 <= i < list.len() ==> (#[trigger] list[i]).1 >= 0
}

/// Whether the record of an invoice agrees with itself and with the list of
/// contributions: the contributions add up to what it says was funded, no more is
/// funded or paid than the amount, and the status says how far both have got.
pub open spec fn invoice_sound(v: Invoice, id: u64, funders: Seq<(Address, i128)>) -> bool {
    &&& v.id == id
    &&& v.amount >= 1_000_000
    &&& 0 <= v.amount_funded <= v.amount
    &&& 0 <= v.amount_paid <= v.amount
    &&& total(funders) == v.amount_funded
    &&& no_debts(funders)
    &&& distinct_funders(funders)
    &&& v.amount_paid > 0 ==> v.amount_funded == v.amount
    &&& v.status == InvoiceStatus::Paid <==> v.amount_paid == v.amount
    &&& v.funder is Some <==> v.amount_funded == v.amount
    &&& v.funder is Some ==> contributes(funders, v.funder->0)
    &&& v.funded_at is Some <==> v.funder is Some
    &&& match v.status {
        InvoiceStatus::Pending | InvoiceStatus::Expired => v.amount_funded == 0,
        InvoiceStatus::PartiallyFunded => v.amount_funded < v.amount,
        InvoiceStatus::Funded | InvoiceStatus::Paid => v.amount_funded == v.amount,
        InvoiceStatus::Defaulted | InvoiceStatus::Appealed => v.amount_funded == v.amount,
        InvoiceStatus::Disputed | InvoiceStatus::Cancelled => true,
    }
}

/// Every stored invoice is sound and has a number that was given out, and nothing
/// was contributed to an invoice that does not exist.
pub open spec fn books_sound(s: EnvView) -> bool {
    &&& forall|id: u64| #[trigger]
        s.has_invoice(id) ==> 1 <= id <= s.invoice_count() && invoice_sound(
            s.invoice(id),
            id,
            s.funders(id),
        )
    &&& forall|id: u64| !#[trigger] s.has_invoice(id) ==> s.funders(id).len() == 0
}

/// The steps that an invoice can take. Paid, expired and cancelled are final.
pub open spec fn may_follow(a: InvoiceStatus, b: InvoiceStatus) -> bool {
    a == b || match a {
        InvoiceStatus::Pending => b == InvoiceStatus::PartiallyFunded || b == InvoiceStatus::Funded
            || b == InvoiceStatus::Disputed || b == InvoiceStatus::Expired || b
            == InvoiceStatus::Cancelled,
        InvoiceStatus::PartiallyFunded => b == InvoiceStatus::Funded || b == InvoiceStatus::Disputed
            || b == InvoiceStatus::Cancelled,
        InvoiceStatus::Funded => b == InvoiceStatus::Paid || b == InvoiceStatus::Defaulted || b
            == InvoiceStatus::Disputed,
        InvoiceStatus::Disputed => b == InvoiceStatus::Pending || b
            == InvoiceStatus::PartiallyFunded || b == InvoiceStatus::Funded || b
            == InvoiceStatus::Cancelled,
        InvoiceStatus::Defaulted => b == InvoiceStatus::Appealed,
        InvoiceStatus::Appealed => b == InvoiceStatus::Defaulted,
        InvoiceStatus::Paid => false,
        InvoiceStatus::Expired => false,
        InvoiceStatus::Cancelled => false,
    }
}

/// How one invoice may change: along a step of [`may_follow`], with the same
/// payer and token, never un-funded or un-paid, and on terms that are fixed as
/// soon as it is no longer pending.
pub open spec fn invoice_evolves(a: Invoice, b: Invoice) -> bool {
    &&& may_follow(a.status, b.status)
    &&& b.id == a.id && b.payer == a.payer && b.token == a.token
    &&& b.submitter_reputation == a.submitter_reputation
    &&& a.amount_funded <= b.amount_funded
    &&& a.amount_paid <= b.amount_paid
    &&& a.status != InvoiceStatus::Pending ==> b.amount == a.amount && b.due_date == a.due_date
        && b.discount_rate == a.discount_rate && b.freelancer == a.freelancer
}

/// How the books may change: no invoice vanishes, each evolves, and numbers are
/// never given out twice.
pub open spec fn evolves(s: EnvView, t: EnvView) -> bool {
    &&& s.invoice_count() <= t.invoice_count()
    &&& forall|id: u64| #[trigger]
        s.has_invoice(id) ==> t.has_invoice(id) && invoice_evolves(s.invoice(id), t.invoice(id))
}

/// Empty books are sound.
pub proof fn law_empty_books_are_sound(s: EnvView)
    requires
        s.persistent == empty_persistent(),
    ensures
        books_sound(s),
        lists_sound(s),
{
}

/// One invoice of `s` was replaced to give `t`.
spec fn replaced(s: EnvView, t: EnvView, id: u64) -> bool {
    &&& s.has_invoice(id)
    &&& t.persistent.invoices == s.persistent.invoices.insert(id, t.invoice(id))
    &&& t.persistent.invoice_count == s.persistent.invoice_count
    &&& forall|other: u64| other != id ==> #[trigger] t.funders(other) == s.funders(other)
}

proof fn lemma_replaced(s: EnvView, t: EnvView, id: u64)
    requires
        books_sound(s),
        replaced(s, t, id),
        invoice_sound(t.invoice(id), id, t.funders(id)),
        invoice_evolves(s.invoice(id), t.invoice(id)),
    ensures
        books_sound(t),
        evolves(s, t),
{
    assert forall|other: u64| #[trigger] t.has_invoice(other) implies 1 <= other
        <= t.invoice_count() && invoice_sound(t.invoice(other), other, t.funders(other)) by {
        assert(s.has_invoice(other));
    }
    assert forall|other: u64| !#[trigger] t.has_invoice(other) implies t.funders(other).len()
        == 0 by {
        assert(!s.has_invoice(other));
    }
}

/// Every invoice of `s` is in `t`, unchanged.
pub open spec fn invoices_kept(s: EnvView, t: EnvView) -> bool {
    forall|id: u64| #[trigger]
        s.has_invoice(id) ==> t.has_invoice(id) && t.invoice(id) == s.invoice(id)
}

/// A submission keeps the books sound and every other invoice as it is, and its
/// number is new.
pub proof fn law_submission_keeps_books_sound(s: EnvView, p: InvoiceParams)
    requires
        books_sound(s),
        item_refusal(s, p) is None,
        room_for(s, 1),
    ensures
        books_sound(recorded(s, p)),
        evolves(s, recorded(s, p)),
        invoices_kept(s, recorded(s, p)),
        !s.has_invoice(new_invoice(s, p).id),
        recorded(s, p).has_invoice(new_invoice(s, p).id),
        recorded(s, p).invoice(new_invoice(s, p).id) == new_invoice(s, p),
{
    let t = recorded(s, p);
    let n = new_invoice(s, p).id;
    assert(!s.has_invoice(n));
    assert forall|id: u64| #[trigger] t.has_invoice(id) implies 1 <= id <= t.invoice_count()
        && invoice_sound(t.invoice(id), id, t.funders(id)) by {
        assert(t.funders(id) == s.funders(id));
        if id == n {
            assert(total(s.funders(n)) == 0);
        } else {
            assert(s.has_invoice(id));
        }
    }
    assert forall|id: u64| !#[trigger] t.has_invoice(id) implies t.funders(id).len() == 0 by {
        assert(!s.has_invoice(id));
        assert(t.funders(id) == s.funders(id));
    }
}

/// A batch that is accepted keeps the books sound and every other invoice as it
/// is, and gives out as many numbers as it has submissions.
pub proof fn law_batch_keeps_books_sound(s: EnvView, items: Seq<InvoiceParams>)
    requires
        books_sound(s),
        forall|i: int| 0 <= i < items.len() ==> item_refusal(s, #[trigger] items[i]) is None,
        room_for(s, items.len() as int),
    ensures
        books_sound(batch_recorded(s, items)),
        invoices_kept(s, batch_recorded(s, items)),
        batch_recorded(s, items).invoice_count() == s.invoice_count() + items.len(),
        batch_recorded(s, items).total_invoices() == s.total_invoices() + items.len(),
        batch_recorded(s, items).instance == s.instance,
        batch_recorded(s, items).ledger == s.ledger,
        batch_recorded(s, items).persistent.approved_tokens == s.persistent.approved_tokens,
    decreases items.len(),
{
    if items.len() > 0 {
        let rest = items.drop_last();
        assert forall|i: int| 0 <= i < rest.len() implies item_refusal(s, #[trigger] rest[i])
            is None by {
            assert(rest[i] == items[i]);
        }
        law_batch_keeps_books_sound(s, rest);
        let before = batch_recorded(s, rest);
        let p = items.last();
        assert(items[items.len() - 1] == p);
        let asked = before.authorized(p.freelancer);
        lemma_same_books(before, asked);
        assert(item_refusal(before, p) is None);
        assert(item_refusal(asked, p) is None);
        law_submission_keeps_books_sound(before, p);
        law_submission_keeps_books_sound(asked, p);
        let t = batch_recorded(s, items);
        assert forall|id: u64| #[trigger] s.has_invoice(id) implies t.has_invoice(id)
            && t.invoice(id) == s.invoice(id) by {
            assert(before.has_invoice(id));
            assert(asked.has_invoice(id));
        }
    }
}

proof fn lemma_same_books(s: EnvView, t: EnvView)
    requires
        books_sound(s),
        t.persistent.invoices == s.persistent.invoices,
        t.persistent.invoice_funders == s.persistent.invoice_funders,
        t.persistent.invoice_count == s.persistent.invoice_count,
    ensures
        books_sound(t),
        evolves(s, t),
{
    assert forall|id: u64| #[trigger] t.has_invoice(id) implies 1 <= id <= t.invoice_count()
        && invoice_sound(t.invoice(id), id, t.funders(id)) by {
        assert(s.has_invoice(id));
    }
    assert forall|id: u64| !#[trigger] t.has_invoice(id) implies t.funders(id).len() == 0 by {
        assert(!s.has_invoice(id));
        assert(t.funders(id) == s.funders(id));
    }
}

/// A correction keeps the books sound.
pub proof fn law_update_keeps_books_sound(
    s: EnvView,
    freelancer: Address,
    id: u64,
    amount: i128,
    due_date: u64,
    rate: u32,
)
    requires
        books_sound(s),
        update_refusal(s, freelancer, id, amount, due_date, rate) is None,
    ensures
        books_sound(terms_updated(s, id, amount, due_date, rate)),
        evolves(s, terms_updated(s, id, amount, due_date, rate)),
{
    lemma_replaced(s, terms_updated(s, id, amount, due_date, rate), id);
}

/// A transfer keeps the books sound.
pub proof fn law_transfer_keeps_books_sound(s: EnvView, id: u64, to: Address)
    requires
        books_sound(s),
        transfer_refusal(s, id) is None,
    ensures
        books_sound(transferred(s, id, to)),
        evolves(s, transferred(s, id, to)),
{
    lemma_replaced(s, transferred(s, id, to), id);
}

/// A cancellation keeps the books sound.
pub proof fn law_cancellation_keeps_books_sound(s: EnvView, id: u64)
    requires
        books_sound(s),
        cancel_refusal(s, id) is None,
    ensures
        books_sound(cancelled(s, id)),
        evolves(s, cancelled(s, id)),
{
    lemma_replaced(s, cancelled(s, id), id);
}

/// Expiry keeps the books sound, whether it is asked for or noticed on the way.
pub proof fn law_expiry_keeps_books_sound(s: EnvView, id: u64)
    requires
        books_sound(s),
        s.has_invoice(id),
        lapsed(s, id),
    ensures
        books_sound(expired(s, id)),
        evolves(s, expired(s, id)),
        expire_refusal(s, id) is None,
{
    lemma_replaced(s, expired(s, id), id);
}

/// Funding keeps the books sound: the contributions still add up. (The token
/// turns a negative contribution away.)
pub proof fn law_funding_keeps_books_sound(s: EnvView, funder: Address, id: u64, amount: i128)
    requires
        books_sound(s),
        fund_refusal(s, funder, id, amount as int) is None,
        amount >= 0,
    ensures
        books_sound(funded(s, funder, id, amount)),
        evolves(s, funded(s, funder, id, amount)),
{
    let t = funded(s, funder, id, amount);
    let before = s.funders(id);
    let after = contributed(before, funder, amount);
    lemma_part_of_total(before, funder);
    law_contributions_add_up(before, funder, amount);
    lemma_contributed_sound(before, funder, amount);
    assert(t.funders(id) == after);
    assert(t.invoice(id) == funded_invoice(s, funder, id, amount as int));
    assert(t.persistent.invoices =~= s.persistent.invoices.insert(id, t.invoice(id)));
    lemma_replaced(s, t, id);
}

/// One contribution is no more than all of them.
pub(crate) proof fn lemma_part_of_total(list: Seq<(Address, i128)>, who: Address)
    requires
        no_debts(list),
    ensures
        0 <= contribution(list, who) <= total(list),
{
    law_contributors_have_an_entry(list, who);
    let p = first_entry(list, who);
    if p < list.len() {
        lemma_entry_of_total(list, p);
    }
    lemma_total_nonnegative(list);
}

/// Without debts there are none in any first part of the list, nor in any entry.
pub(crate) proof fn lemma_no_debts_in_part(list: Seq<(Address, i128)>, k: int)
    requires
        no_debts(list),
        0 <= k <= list.len(),
    ensures
        no_debts(list.take(k)),
        k == list.len() - 1 ==> list.take(k) == list.drop_last() && list.last().1 >= 0,
{
    assert forall|i: int| 0 <= i < k implies (#[trigger] list.take(k)[i]).1 >= 0 by {
        assert(list.take(k)[i] == list[i]);
    }
    if k == list.len() - 1 {
        assert(list.take(k) =~= list.drop_last());
        assert(list[k].1 >= 0);
    }
}

pub(crate) proof fn lemma_total_nonnegative(list: Seq<(Address, i128)>)
    requires
        no_debts(list),
    ensures
        0 <= total(list),
    decreases list.len(),
{
    if list.len() > 0 {
        lemma_no_debts_in_part(list, list.len() - 1);
        lemma_total_nonnegative(list.drop_last());
    }
}

pub(crate) proof fn lemma_entry_of_total(list: Seq<(Address, i128)>, p: int)
    requires
        no_debts(list),
        0 <= p < list.len(),
    ensures
        0 <= list[p].1 <= total(list),
    decreases list.len(),
{
    let rest = list.drop_last();
    lemma_no_debts_in_part(list, list.len() - 1);
    lemma_total_nonnegative(rest);
    if p < rest.len() {
        lemma_entry_of_total(rest, p);
        assert(rest[p] == list[p]);
    }
}

proof fn lemma_contributed_sound(list: Seq<(Address, i128)>, who: Address, amount: i128)
    requires
        no_debts(list),
        distinct_funders(list),
        amount >= 0,
        in_i128(contribution(list, who) + amount),
    ensures
        no_debts(contributed(list, who, amount)),
        distinct_funders(contributed(list, who, amount)),
        contributes(contributed(list, who, amount), who),
        forall|other: Address|
            other != who ==> (#[trigger] contributes(contributed(list, who, amount), other)
                <==> contributes(list, other)),
{
    law_contributors_have_an_entry(list, who);
    let after = contributed(list, who, amount);
    let p = first_entry(list, who);
    assert(after[p].0 == who);
    assert forall|i: int, j: int| 0 <= i < j < after.len() implies (#[trigger] after[i]).0 != (
    #[trigger] after[j]).0 by {
        if p < list.len() {
            assert(list[i].0 != list[j].0);
        } else if j == list.len() {
            assert(!contributes(list, who));
            assert(list[i].0 != who);
        } else {
            assert(list[i].0 != list[j].0);
        }
    }
    assert forall|i: int| 0 <= i < after.len() implies (#[trigger] after[i]).1 >= 0 by {
        if i < list.len() {
            assert(list[i].1 >= 0);
        }
    }
    assert forall|other: Address| other != who implies (#[trigger] contributes(after, other)
        <==> contributes(list, other)) by {
        if contributes(list, other) {
            let i = choose|i: int| 0 <= i < list.len() && (#[trigger] list[i]).0 == other;
            assert(after[i].0 == other);
        }
        if contributes(after, other) {
            let i = choose|i: int| 0 <= i < after.len() && (#[trigger] after[i]).0 == other;
            assert(list[i].0 == other);
        }
    }
}

/// Every contribution on the list is positive.
pub open spec fn all_positive(list: Seq<(Address, i128)>) -> bool {
    forall|i: int| 0 <= i < list.len() ==> (#[trigger] list[i]).1 > 0
}

/// A positive contribution leaves the invoice funded by positive contributions of
/// distinct funders, which add up to what it says, at most its amount. It is funded
/// exactly if they make up the amount, and exactly then it says by whom and since
/// when. The contribution of the funder grows by what they put in, and nobody
/// else's changes.
pub proof fn law_positive_contributions_fund(s: EnvView, funder: Address, id: u64, amount: i128)
    requires
        books_sound(s),
        all_positive(s.funders(id)),
        fund_refusal(s, funder, id, amount as int) is None,
        amount > 0,
    ensures
        ({
            let t = funded(s, funder, id, amount);
            let v = t.invoice(id);
            let list = t.funders(id);
            &&& all_positive(list)
            &&& distinct_funders(list)
            &&& total(list) == v.amount_funded
            &&& 0 < v.amount_funded <= v.amount
            &&& v.status == InvoiceStatus::Funded <==> v.amount_funded == v.amount
            &&& v.status != InvoiceStatus::Funded ==> v.status == InvoiceStatus::PartiallyFunded
            &&& v.funder is Some <==> v.status == InvoiceStatus::Funded
            &&& v.funded_at is Some <==> v.status == InvoiceStatus::Funded
            &&& contribution(list, funder) == contribution(s.funders(id), funder) + amount
            &&& forall|other: Address|
                other != funder ==> #[trigger] contribution(list, other) == contribution(
                    s.funders(id),
                    other,
                )
            &&& forall|other: u64| other != id ==> #[trigger] t.funders(other) == s.funders(other)
        }),
{
    let t = funded(s, funder, id, amount);
    let before = s.funders(id);
    let list = t.funders(id);
    law_funding_keeps_books_sound(s, funder, id, amount);
    assert(t.has_invoice(id));
    assert(list == contributed(before, funder, amount));
    lemma_part_of_total(before, funder);
    law_contributors_have_an_entry(before, funder);
    let p = first_entry(before, funder);
    assert forall|i: int| 0 <= i < list.len() implies (#[trigger] list[i]).1 > 0 by {
        if i < before.len() {
            assert(before[i].1 > 0);
        }
    }
    assert forall|j: int| 0 <= j < p implies (#[trigger] list[j]).0 != funder by {
        lemma_before_first(before, funder, j);
    }
    lemma_first_entry(list, funder, p);
    assert forall|other: Address| other != funder implies #[trigger] contribution(list, other)
        == contribution(before, other) by {
        law_contributions_of_others_stay(before, funder, amount, other);
    }
    lemma_part_of_total(list, funder);
}

/// Funding alone changes contributions: every other step leaves them as they are.
pub proof fn law_only_funding_changes_contributions(
    s: EnvView,
    p: InvoiceParams,
    id: u64,
    who: Address,
    amount: i128,
    due_date: u64,
    rate: u32,
    hash: Hash32,
    upheld: bool,
)
    ensures
        ({
            let funders = s.persistent.invoice_funders;
            &&& recorded(s, p).persistent.invoice_funders == funders
            &&& terms_updated(s, id, amount, due_date, rate).persistent.invoice_funders == funders
            &&& transferred(s, id, who).persistent.invoice_funders == funders
            &&& cancelled(s, id).persistent.invoice_funders == funders
            &&& expired(s, id).persistent.invoice_funders == funders
            &&& partially_paid(s, id, amount).persistent.invoice_funders == funders
            &&& settled(s, id, amount).persistent.invoice_funders == funders
            &&& defaulted(s, who, id).persistent.invoice_funders == funders
            &&& appealed(s, id, hash).persistent.invoice_funders == funders
            &&& appeal_resolved(s, id, upheld).persistent.invoice_funders == funders
            &&& disputed(s, id, hash).persistent.invoice_funders == funders
            &&& dispute_upheld(s, id, hash).persistent.invoice_funders == funders
            &&& dispute_rejected(s, id, hash).persistent.invoice_funders == funders
        }),
{
}

/// A payment keeps the books sound, and the one that settles an invoice leaves it
/// paid in full.
pub proof fn law_payment_keeps_books_sound(s: EnvView, id: u64, amount: i128)
    requires
        books_sound(s),
        pay_refusal(s, id, amount as int) is None,
    ensures
        settles(s, id, amount as int) ==> {
            &&& books_sound(settled(s, id, amount))
            &&& evolves(s, settled(s, id, amount))
            &&& settled(s, id, amount).invoice(id).status == InvoiceStatus::Paid
        },
        !settles(s, id, amount as int) ==> {
            &&& books_sound(partially_paid(s, id, amount))
            &&& evolves(s, partially_paid(s, id, amount))
            &&& partially_paid(s, id, amount).invoice(id).status == InvoiceStatus::Funded
        },
{
    if settles(s, id, amount as int) {
        lemma_replaced(s, settled(s, id, amount), id);
    } else {
        lemma_replaced(s, partially_paid(s, id, amount), id);
    }
}

/// A default keeps the books sound.
pub proof fn law_default_keeps_books_sound(s: EnvView, funder: Address, id: u64)
    requires
        books_sound(s),
        default_refusal(s, funder, id) is None,
    ensures
        books_sound(defaulted(s, funder, id)),
        evolves(s, defaulted(s, funder, id)),
{
    lemma_replaced(s, defaulted(s, funder, id), id);
}

/// An appeal and its resolution keep the books sound.
pub proof fn law_appeal_keeps_books_sound(s: EnvView, id: u64, hash: Hash32, upheld: bool)
    requires
        books_sound(s),
    ensures
        appeal_refusal(s, id) is None ==> books_sound(appealed(s, id, hash)) && evolves(
            s,
            appealed(s, id, hash),
        ),
        appeal_resolution_refusal(s, id) is None ==> books_sound(appeal_resolved(s, id, upheld))
            && evolves(s, appeal_resolved(s, id, upheld)),
{
    if appeal_refusal(s, id) is None {
        lemma_replaced(s, appealed(s, id, hash), id);
    }
    if appeal_resolution_refusal(s, id) is None {
        lemma_replaced(s, appeal_resolved(s, id, upheld), id);
    }
}

/// A dispute and its resolution keep the books sound.
pub proof fn law_dispute_keeps_books_sound(s: EnvView, id: u64, hash: Hash32)
    requires
        books_sound(s),
    ensures
        dispute_refusal(s, id) is None ==> books_sound(disputed(s, id, hash)) && evolves(
            s,
            disputed(s, id, hash),
        ),
        dispute_resolution_refusal(s, id, 1) is None ==> books_sound(dispute_upheld(s, id, hash))
            && evolves(s, dispute_upheld(s, id, hash)),
        s.has_invoice(id) && s.invoice(id).status == InvoiceStatus::Disputed ==> books_sound(
            dispute_rejected(s, id, hash),
        ) && evolves(s, dispute_rejected(s, id, hash)),
{
    if dispute_refusal(s, id) is None {
        lemma_replaced(s, disputed(s, id, hash), id);
    }
    if dispute_resolution_refusal(s, id, 1) is None {
        lemma_replaced(s, dispute_upheld(s, id, hash), id);
    }
    if s.has_invoice(id) && s.invoice(id).status == InvoiceStatus::Disputed {
        lemma_replaced(s, dispute_rejected(s, id, hash), id);
    }
}

// ----------------------------------------------------------------
// Sound lists
// ----------------------------------------------------------------

/// The list of a freelancer holds exactly their invoices, each once; the list of
/// a liquidity provider holds exactly the invoices that they have funded, each
/// once.
pub open spec fn lists_sound(s: EnvView) -> bool {
    &&& forall|who: Address, id: u64| #[trigger]
        s.submitter_ids(who).contains(id) <==> s.has_invoice(id) && s.invoice(id).freelancer == who
    &&& forall|who: Address| #[trigger] s.submitter_ids(who).no_duplicates()
    &&& forall|lp: Address, id: u64| #[trigger]
        s.lp_ids(lp).contains(id) <==> contributes(s.funders(id), lp)
    &&& forall|lp: Address| #[trigger] s.lp_ids(lp).no_duplicates()
}

proof fn lemma_push_unique(ids: Seq<u64>, x: u64)
    requires
        ids.no_duplicates(),
        !ids.contains(x),
    ensures
        ids.push(x).no_duplicates(),
        forall|y: u64| #[trigger] ids.push(x).contains(y) <==> ids.contains(y) || y == x,
{
    let after = ids.push(x);
    assert forall|y: u64| #[trigger] after.contains(y) <==> ids.contains(y) || y == x by {
        if ids.contains(y) {
            assert(after[ids.index_of(y)] == y);
        }
        if after.contains(y) && y != x {
            assert(ids[after.index_of(y)] == y);
        }
        if y == x {
            assert(after[ids.len() as int] == y);
        }
    }
    assert forall|i: int, j: int|
        0 <= i < after.len() && 0 <= j < after.len() && i != j implies after[i] != after[j] by {
        if i == ids.len() {
            assert(ids.contains(after[j]));
        } else if j == ids.len() {
            assert(ids.contains(after[i]));
        }
    }
}

proof fn lemma_without_unique(ids: Seq<u64>, x: u64)
    requires
        ids.no_duplicates(),
    ensures
        without(ids, x).no_duplicates(),
    decreases ids.len(),
{
    if ids.len() > 0 {
        let rest = ids.drop_last();
        assert forall|i: int, j: int|
            0 <= i < rest.len() && 0 <= j < rest.len() && i != j implies rest[i] != rest[j] by {
            assert(ids[i] != ids[j]);
        }
        lemma_without_unique(rest, x);
        if ids.last() != x {
            law_without_takes_out_exactly(rest, x, ids.last());
            assert(!rest.contains(ids.last())) by {
                if rest.contains(ids.last()) {
                    let i = rest.index_of(ids.last());
                    assert(ids[i] == ids[ids.len() - 1]);
                }
            }
            lemma_push_unique(without(rest, x), ids.last());
        }
    }
}

/// A submission goes on the list of its freelancer.
pub proof fn law_submission_keeps_lists_sound(s: EnvView, p: InvoiceParams)
    requires
        books_sound(s),
        lists_sound(s),
        item_refusal(s, p) is None,
        room_for(s, 1),
    ensures
        lists_sound(recorded(s, p)),
{
    let t = recorded(s, p);
    let n = new_invoice(s, p).id;
    law_submission_keeps_books_sound(s, p);
    let f = p.freelancer;
    assert(!s.submitter_ids(f).contains(n));
    assert(s.submitter_ids(f).no_duplicates());
    lemma_push_unique(s.submitter_ids(f), n);
    assert(t.submitter_ids(f) == s.submitter_ids(f).push(n));
    assert forall|who: Address| who != f implies #[trigger] t.submitter_ids(who)
        == s.submitter_ids(who) by {}
    assert forall|who: Address, id: u64| #[trigger] t.submitter_ids(who).contains(id)
        <==> t.has_invoice(id) && t.invoice(id).freelancer == who by {
        assert(s.submitter_ids(who).contains(id) <==> s.has_invoice(id) && s.invoice(id).freelancer
            == who);
    }
    assert forall|who: Address| #[trigger] t.submitter_ids(who).no_duplicates() by {
        assert(s.submitter_ids(who).no_duplicates());
    }
    assert forall|lp: Address, id: u64| #[trigger] t.lp_ids(lp).contains(id) <==> contributes(
        t.funders(id),
        lp,
    ) by {
        assert(t.lp_ids(lp) == s.lp_ids(lp));
        assert(t.funders(id) == s.funders(id));
        assert(s.lp_ids(lp).contains(id) <==> contributes(s.funders(id), lp));
    }
    assert forall|lp: Address| #[trigger] t.lp_ids(lp).no_duplicates() by {
        assert(t.lp_ids(lp) == s.lp_ids(lp));
        assert(s.lp_ids(lp).no_duplicates());
    }
}

/// A transfer moves the invoice from one list to the other.
pub proof fn law_transfer_keeps_lists_sound(s: EnvView, id: u64, to: Address)
    requires
        books_sound(s),
        lists_sound(s),
        transfer_refusal(s, id) is None,
    ensures
        lists_sound(transferred(s, id, to)),
        transferred(s, id, to).submitter_ids(to).contains(id),
{
    let t = transferred(s, id, to);
    let from = s.invoice(id).freelancer;
    let taken = without(s.submitter_ids(from), id);
    assert(s.submitter_ids(from).no_duplicates());
    lemma_without_unique(s.submitter_ids(from), id);
    assert forall|y: u64| #[trigger] taken.contains(y) <==> s.submitter_ids(from).contains(y) && y
        != id by {
        law_without_takes_out_exactly(s.submitter_ids(from), id, y);
    }
    let base = if to == from {
        taken
    } else {
        s.submitter_ids(to)
    };
    assert(s.submitter_ids(to).contains(id) <==> s.invoice(id).freelancer == to);
    assert(s.submitter_ids(to).no_duplicates());
    lemma_push_unique(base, id);
    assert(t.submitter_ids(to) == base.push(id));
    assert(to != from ==> t.submitter_ids(from) == taken);
    assert forall|who: Address| who != from && who != to implies #[trigger] t.submitter_ids(who)
        == s.submitter_ids(who) by {}
    assert forall|who: Address, x: u64| #[trigger] t.submitter_ids(who).contains(x)
        <==> t.has_invoice(x) && t.invoice(x).freelancer == who by {
        assert(s.submitter_ids(who).contains(x) <==> s.has_invoice(x) && s.invoice(x).freelancer
            == who);
        assert(s.has_invoice(id) && s.invoice(id).id == id);
    }
    assert forall|who: Address| #[trigger] t.submitter_ids(who).no_duplicates() by {
        assert(s.submitter_ids(who).no_duplicates());
    }
    assert forall|lp: Address, x: u64| #[trigger] t.lp_ids(lp).contains(x) <==> contributes(
        t.funders(x),
        lp,
    ) by {
        assert(t.lp_ids(lp) == s.lp_ids(lp));
        assert(t.funders(x) == s.funders(x));
        assert(s.lp_ids(lp).contains(x) <==> contributes(s.funders(x), lp));
    }
    assert forall|lp: Address| #[trigger] t.lp_ids(lp).no_duplicates() by {
        assert(t.lp_ids(lp) == s.lp_ids(lp));
        assert(s.lp_ids(lp).no_duplicates());
    }
    assert(base.push(id)[base.len() as int] == id);
}

/// Funding puts the invoice on the funder's list, once however often they fund.
pub proof fn law_funding_keeps_lists_sound(s: EnvView, funder: Address, id: u64, amount: i128)
    requires
        books_sound(s),
        lists_sound(s),
        fund_refusal(s, funder, id, amount as int) is None,
        amount >= 0,
    ensures
        lists_sound(funded(s, funder, id, amount)),
        funded(s, funder, id, amount).lp_ids(funder).contains(id),
{
    let t = funded(s, funder, id, amount);
    let before = s.funders(id);
    lemma_part_of_total(before, funder);
    lemma_contributed_sound(before, funder, amount);
    assert(t.funders(id) == contributed(before, funder, amount));
    assert forall|x: u64| x != id implies #[trigger] t.funders(x) == s.funders(x) by {}
    assert(s.lp_ids(funder).no_duplicates());
    assert(s.lp_ids(funder).contains(id) <==> contributes(before, funder));
    if s.lp_ids(funder).contains(id) {
        assert(t.lp_ids(funder) == s.lp_ids(funder));
    } else {
        lemma_push_unique(s.lp_ids(funder), id);
        assert(t.lp_ids(funder) == s.lp_ids(funder).push(id));
    }
    assert forall|lp: Address| lp != funder implies #[trigger] t.lp_ids(lp) == s.lp_ids(lp) by {}
    assert forall|lp: Address, x: u64| #[trigger] t.lp_ids(lp).contains(x) <==> contributes(
        t.funders(x),
        lp,
    ) by {
        assert(s.lp_ids(lp).contains(x) <==> contributes(s.funders(x), lp));
    }
    assert forall|lp: Address| #[trigger] t.lp_ids(lp).no_duplicates() by {
        assert(s.lp_ids(lp).no_duplicates());
    }
    assert forall|who: Address, x: u64| #[trigger] t.submitter_ids(who).contains(x)
        <==> t.has_invoice(x) && t.invoice(x).freelancer == who by {
        assert(t.submitter_ids(who) == s.submitter_ids(who));
        assert(s.submitter_ids(who).contains(x) <==> s.has_invoice(x) && s.invoice(x).freelancer
            == who);
        assert(s.has_invoice(id) && s.invoice(id).id == id);
    }
    assert forall|who: Address| #[trigger] t.submitter_ids(who).no_duplicates() by {
        assert(t.submitter_ids(who) == s.submitter_ids(who));
        assert(s.submitter_ids(who).no_duplicates());
    }
}

proof fn lemma_same_lists(s: EnvView, t: EnvView, id: u64)
    requires
        books_sound(s),
        lists_sound(s),
        s.has_invoice(id),
        t.persistent.submitter_invoices == s.persistent.submitter_invoices,
        t.persistent.lp_invoices == s.persistent.lp_invoices,
        t.persistent.invoice_funders == s.persistent.invoice_funders,
        t.persistent.invoices == s.persistent.invoices.insert(id, t.invoice(id)),
        t.invoice(id).freelancer == s.invoice(id).freelancer,
    ensures
        lists_sound(t),
{
    assert forall|who: Address, x: u64| #[trigger] t.submitter_ids(who).contains(x)
        <==> t.has_invoice(x) && t.invoice(x).freelancer == who by {
        assert(s.submitter_ids(who).contains(x) <==> s.has_invoice(x) && s.invoice(x).freelancer
            == who);
    }
    assert forall|who: Address| #[trigger] t.submitter_ids(who).no_duplicates() by {
        assert(s.submitter_ids(who).no_duplicates());
    }
    assert forall|lp: Address, x: u64| #[trigger] t.lp_ids(lp).contains(x) <==> contributes(
        t.funders(x),
        lp,
    ) by {
        assert(t.funders(x) == s.funders(x));
        assert(s.lp_ids(lp).contains(x) <==> contributes(s.funders(x), lp));
    }
    assert forall|lp: Address| #[trigger] t.lp_ids(lp).no_duplicates() by {
        assert(s.lp_ids(lp).no_duplicates());
    }
}

/// Correction, cancellation, expiry, payment, default, appeal and dispute leave
/// the lists as they are, and sound.
pub proof fn law_other_steps_keep_lists_sound(
    s: EnvView,
    id: u64,
    who: Address,
    amount: i128,
    due_date: u64,
    rate: u32,
    hash: Hash32,
    upheld: bool,
)
    requires
        books_sound(s),
        lists_sound(s),
        s.has_invoice(id),
    ensures
        lists_sound(terms_updated(s, id, amount, due_date, rate)),
        lists_sound(cancelled(s, id)),
        lists_sound(expired(s, id)),
        lists_sound(partially_paid(s, id, amount)),
        lists_sound(settled(s, id, amount)),
        lists_sound(defaulted(s, who, id)),
        lists_sound(appealed(s, id, hash)),
        lists_sound(appeal_resolved(s, id, upheld)),
        lists_sound(disputed(s, id, hash)),
        lists_sound(dispute_upheld(s, id, hash)),
        lists_sound(dispute_rejected(s, id, hash)),
{
    lemma_same_lists(s, terms_updated(s, id, amount, due_date, rate), id);
    lemma_same_lists(s, cancelled(s, id), id);
    lemma_same_lists(s, expired(s, id), id);
    lemma_same_lists(s, partially_paid(s, id, amount), id);
    lemma_same_lists(s, settled(s, id, amount), id);
    lemma_same_lists(s, defaulted(s, who, id), id);
    lemma_same_lists(s, appealed(s, id, hash), id);
    lemma_same_lists(s, appeal_resolved(s, id, upheld), id);
    lemma_same_lists(s, disputed(s, id, hash), id);
    lemma_same_lists(s, dispute_upheld(s, id, hash), id);
    lemma_same_lists(s, dispute_rejected(s, id, hash), id);
}

} // verus!

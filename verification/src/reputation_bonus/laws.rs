//! What holds of invoices and records together.

use crate::host::Address;
use crate::reputation_bonus::env::EnvView;
use crate::reputation_bonus::invoice::{
    closing_refusal, defaulted, paid_off, submitted_invoice, Invoice, InvoiceKey, InvoiceStatus,
};
use crate::reputation_bonus::reputation::{paid_percentage, ReputationKey, ReputationScore};
use vstd::prelude::*;

verus! {

/// How many sides of an invoice an address is on.
pub open spec fn sides(invoice: Invoice, who: Address) -> int {
    (if invoice.freelancer == who {
        1int
    } else {
        0
    }) + (if invoice.payer == who {
        1int
    } else {
        0
    })
}

/// What invoice `id` counts for `who`, among those of the given status; among all,
/// where none is given.
pub open spec fn counts(s: EnvView, who: Address, status: Option<InvoiceStatus>, id: u64) -> int {
    if s.has_invoice(id) && (status is None || status == Some(s.invoice(id).status)) {
        sides(s.invoice(id), who)
    } else {
        0
    }
}

/// What the first `n` invoices count for `who`.
pub open spec fn tally(s: EnvView, who: Address, status: Option<InvoiceStatus>, n: nat) -> int
    decreases n,
{
    if n == 0 {
        0
    } else {
        tally(s, who, status, (n - 1) as nat) + counts(s, who, status, n as u64)
    }
}

/// Whether the record of `who` says how many invoices they were party to, how many
/// of those were paid and how many defaulted, and has the score that follows.
pub open spec fn record_true(s: EnvView, who: Address) -> bool {
    let r = s.reputation(who);
    let n = s.invoice_count() as nat;
    &&& r.invoices_submitted == tally(s, who, None, n)
    &&& r.invoices_paid == tally(s, who, Some(InvoiceStatus::Paid), n)
    &&& r.invoices_defaulted == tally(s, who, Some(InvoiceStatus::Defaulted), n)
    &&& r.score == paid_percentage(r.invoices_submitted, r.invoices_paid)
}

/// Every record is true, and every invoice has a number that was given out.
pub open spec fn records_true(s: EnvView) -> bool {
    &&& forall|who: Address| #[trigger] record_true(s, who)
    &&& forall|id: u64| #[trigger] s.has_invoice(id) ==> 1 <= id <= s.invoice_count()
}

/// Whether no counter of either party is about to be full.
pub open spec fn counters_have_room(s: EnvView, a: Address, b: Address) -> bool {
    forall|who: Address|
        who == a || who == b ==> (#[trigger] s.reputation(who)).invoices_submitted + 2 <= u32::MAX
}

/// Without any invoice every record is blank, and true.
pub proof fn law_blank_records_are_true(s: EnvView)
    requires
        s.invoices == Map::<InvoiceKey, Invoice>::empty(),
        s.reputations == Map::<ReputationKey, ReputationScore>::empty(),
        s.invoice_count is None,
    ensures
        records_true(s),
{
    assert forall|who: Address| #[trigger] record_true(s, who) by {
        assert(paid_percentage(0, 0) == 0);
    }
}

proof fn lemma_tally_frame(
    s: EnvView,
    t: EnvView,
    who: Address,
    status: Option<InvoiceStatus>,
    n: nat,
)
    requires
        n <= u64::MAX,
        forall|id: u64|
            1 <= id <= n ==> t.has_invoice(id) == s.has_invoice(id) && (#[trigger] t.invoice(id))
                == s.invoice(id),
    ensures
        tally(t, who, status, n) == tally(s, who, status, n),
    decreases n,
{
    if n > 0 {
        lemma_tally_frame(s, t, who, status, (n - 1) as nat);
        assert(t.invoice(n as u64) == s.invoice(n as u64));
    }
}

proof fn lemma_tally_change(
    s: EnvView,
    t: EnvView,
    who: Address,
    status: Option<InvoiceStatus>,
    id: u64,
    n: nat,
)
    requires
        1 <= id <= n <= u64::MAX,
        forall|other: u64|
            other != id ==> t.has_invoice(other) == s.has_invoice(other) && (#[trigger] t.invoice(
                other,
            )) == s.invoice(other),
    ensures
        tally(t, who, status, n) == tally(s, who, status, n) - counts(s, who, status, id) + counts(
            t,
            who,
            status,
            id,
        ),
    decreases n,
{
    if n == id {
        assert forall|other: u64| 1 <= other <= n - 1 implies t.has_invoice(other)
            == s.has_invoice(other) && (#[trigger] t.invoice(other)) == s.invoice(other) by {}
        lemma_tally_frame(s, t, who, status, (n - 1) as nat);
    } else {
        lemma_tally_change(s, t, who, status, id, (n - 1) as nat);
        assert(t.invoice(n as u64) == s.invoice(n as u64));
    }
}

proof fn lemma_tally_within(s: EnvView, who: Address, status: InvoiceStatus, n: nat)
    requires
        n <= u64::MAX,
    ensures
        0 <= tally(s, who, Some(status), n) <= tally(s, who, None, n),
        status == InvoiceStatus::Paid ==> tally(s, who, Some(InvoiceStatus::Paid), n) + tally(
            s,
            who,
            Some(InvoiceStatus::Defaulted),
            n,
        ) <= tally(s, who, None, n),
    decreases n,
{
    if n > 0 {
        lemma_tally_within(s, who, status, (n - 1) as nat);
    }
}

/// A true record never counts more invoices as over than there are.
pub proof fn law_records_never_overcount(s: EnvView, who: Address)
    requires
        record_true(s, who),
    ensures
        s.reputation(who).invoices_paid + s.reputation(who).invoices_defaulted <= s.reputation(
            who,
        ).invoices_submitted,
{
    lemma_tally_within(s, who, InvoiceStatus::Paid, s.invoice_count() as nat);
}

/// A submission keeps every record true.
pub proof fn law_submission_keeps_records_true(
    s: EnvView,
    freelancer: Address,
    payer: Address,
    amount: i128,
    due_date: u64,
    base: u32,
)
    requires
        records_true(s),
        s.invoice_count() < u64::MAX,
        counters_have_room(s, freelancer, payer),
    ensures
        ({
            let invoice = submitted_invoice(s, freelancer, payer, amount, due_date, base);
            records_true(
                EnvView { invoice_count: Some(invoice.id), ..s }.authorized(
                    freelancer,
                ).invoice_saved(invoice.id, invoice).submission_counted(
                    freelancer,
                ).submission_counted(payer),
            )
        }),
{
    let invoice = submitted_invoice(s, freelancer, payer, amount, due_date, base);
    let t = EnvView { invoice_count: Some(invoice.id), ..s }.authorized(freelancer).invoice_saved(
        invoice.id,
        invoice,
    ).submission_counted(freelancer).submission_counted(payer);
    let n = s.invoice_count() as nat;
    assert(!s.has_invoice(invoice.id));
    assert(t.invoice(invoice.id) == invoice);
    assert forall|who: Address| #[trigger] record_true(t, who) by {
        assert(record_true(s, who));
        assert(s.reputation(freelancer).invoices_submitted + 2 <= u32::MAX);
        assert(s.reputation(payer).invoices_submitted + 2 <= u32::MAX);
        lemma_tally_frame(s, t, who, None, n);
        lemma_tally_frame(s, t, who, Some(InvoiceStatus::Paid), n);
        lemma_tally_frame(s, t, who, Some(InvoiceStatus::Defaulted), n);
        assert(t.invoice_count() == n + 1);
        assert(counts(t, who, None, invoice.id) == sides(invoice, who));
    }
    assert forall|id: u64| #[trigger] t.has_invoice(id) implies 1 <= id <= t.invoice_count() by {
        if id != invoice.id {
            assert(s.has_invoice(id));
        }
    }
}

/// A payment keeps every record true.
pub proof fn law_payment_keeps_records_true(s: EnvView, id: u64)
    requires
        records_true(s),
        closing_refusal(s, id) is None,
        counters_have_room(s, s.invoice(id).freelancer, s.invoice(id).payer),
    ensures
        records_true(paid_off(s, id)),
{
    let t = paid_off(s, id);
    lemma_closing_keeps_records_true(s, t, id, InvoiceStatus::Paid);
}

/// A default keeps every record true.
pub proof fn law_default_keeps_records_true(s: EnvView, id: u64)
    requires
        records_true(s),
        closing_refusal(s, id) is None,
        counters_have_room(s, s.invoice(id).freelancer, s.invoice(id).payer),
    ensures
        records_true(defaulted(s, id)),
{
    let t = defaulted(s, id);
    lemma_closing_keeps_records_true(s, t, id, InvoiceStatus::Defaulted);
}

proof fn lemma_closing_keeps_records_true(s: EnvView, t: EnvView, id: u64, end: InvoiceStatus)
    requires
        records_true(s),
        closing_refusal(s, id) is None,
        counters_have_room(s, s.invoice(id).freelancer, s.invoice(id).payer),
        end == InvoiceStatus::Paid && t == paid_off(s, id) || end == InvoiceStatus::Defaulted && t
            == defaulted(s, id),
    ensures
        records_true(t),
{
    let before = s.invoice(id);
    let n = s.invoice_count() as nat;
    assert(s.has_invoice(id));
    assert(t.invoice(id) == (Invoice { status: end, ..before }));
    assert forall|who: Address| #[trigger] record_true(t, who) by {
        assert(record_true(s, who));
        assert(record_true(s, before.freelancer));
        assert(record_true(s, before.payer));
        law_records_never_overcount(s, who);
        law_records_never_overcount(s, before.freelancer);
        law_records_never_overcount(s, before.payer);
        assert(s.reputation(before.freelancer).invoices_submitted + 2 <= u32::MAX);
        assert(s.reputation(before.payer).invoices_submitted + 2 <= u32::MAX);
        lemma_tally_change(s, t, who, None, id, n);
        lemma_tally_change(s, t, who, Some(InvoiceStatus::Paid), id, n);
        lemma_tally_change(s, t, who, Some(InvoiceStatus::Defaulted), id, n);
        assert(t.invoice_count() == n);
    }
    assert forall|other: u64| #[trigger] t.has_invoice(other) implies 1 <= other
        <= t.invoice_count() by {
        if other != id {
            assert(s.has_invoice(other));
        }
    }
}

} // verus!

//! Invoices before they are funded: submission, correction, transfer,
//! cancellation and expiry.

use crate::host::Address;
use crate::invoice_liquidity::access::{require_submitter, require_submitter_by_id};
use crate::invoice_liquidity::contract::{
    is_approved_token, InvoiceLiquidityContract, MAX_INVOICE_DURATION, MIN_INVOICE_DURATION,
};
use crate::invoice_liquidity::contributions::{refund_all, refund_calls};
use crate::invoice_liquidity::env::{Env, EnvView, HostCall, PersistentView};
use crate::invoice_liquidity::errors::ContractError;
use crate::invoice_liquidity::events::{
    Event, InvoiceCancelled, InvoiceSubmitted, InvoiceTransferred, InvoiceUpdated,
};
use crate::invoice_liquidity::invoice::{
    add_invoice_to_submitter, get_invoice_funders, get_payer_score, increment_total_invoices,
    invoice_exists, is_paused, load_invoice, next_invoice_id, remove_invoice_from_submitter,
    save_invoice, Invoice, InvoiceParams, InvoiceStatus,
};
use crate::invoice_liquidity::model::or_default;
use crate::list::{holds, without};
use vstd::prelude::*;

verus! {

/// Why the terms of an invoice are refused, if they are.
pub open spec fn terms_refusal(s: EnvView, amount: i128, due_date: u64, discount_rate: u32)
    -> Option<ContractError> {
    let now = s.ledger.timestamp;
    if amount < 1_000_000 {
        Some(ContractError::InvalidAmount)
    } else if discount_rate == 0 || discount_rate > or_default(
        s.instance.max_discount_rate,
        5000,
    ) {
        Some(ContractError::InvalidDiscountRate)
    } else if due_date > u32::MAX || due_date <= now {
        Some(ContractError::InvalidDueDate)
    } else if due_date < now + MIN_INVOICE_DURATION {
        Some(ContractError::DueDateTooSoon)
    } else if due_date > now + MAX_INVOICE_DURATION {
        Some(ContractError::DueDateTooFar)
    } else {
        None
    }
}

/// Checks the terms of an invoice: an amount of at least one unit, a discount
/// within the cap, and a due date between a day and a year ahead.
pub fn validate_invoice_terms(env: &Env, amount: i128, due_date: u64, discount_rate: u32) -> (r:
    Result<(), ContractError>)
    ensures
        r == (match terms_refusal(env@, amount, due_date, discount_rate) {
            Some(e) => Err::<(), ContractError>(e),
            None => Ok(()),
        }),
{
    if amount < 1_000_000 {
        return Err(ContractError::InvalidAmount);
    }
    let max_rate: u32 = env.instance.max_discount_rate.unwrap_or(5000);
    if discount_rate == 0 || discount_rate > max_rate {
        return Err(ContractError::InvalidDiscountRate);
    }
    // Timestamps are stored in 32 bits.
    if due_date > u32::MAX as u64 {
        return Err(ContractError::InvalidDueDate);
    }
    let now: u64 = env.ledger.timestamp;
    if due_date <= now {
        return Err(ContractError::InvalidDueDate);
    }
    if due_date < now + MIN_INVOICE_DURATION {
        return Err(ContractError::DueDateTooSoon);
    }
    if due_date > now + MAX_INVOICE_DURATION {
        return Err(ContractError::DueDateTooFar);
    }
    Ok(())
}

/// The invoice that a submission creates.
pub open spec fn new_invoice(s: EnvView, p: InvoiceParams) -> Invoice {
    Invoice {
        id: (s.invoice_count() + 1) as u64,
        freelancer: p.freelancer,
        payer: p.payer,
        token: p.token,
        amount: p.amount,
        due_date: p.due_date as u32,
        discount_rate: p.discount_rate,
        status: InvoiceStatus::Pending,
        funder: None,
        funded_at: None,
        amount_funded: 0,
        amount_paid: 0,
        submitter_reputation: s.payer_score(p.freelancer),
    }
}

/// The event that announces a new invoice.
pub open spec fn submitted_event(s: EnvView, invoice: Invoice) -> Event {
    Event::InvoiceSubmitted(
        InvoiceSubmitted {
            invoice_id: invoice.id,
            freelancer: invoice.freelancer,
            payer: invoice.payer,
            token: invoice.token,
            amount: invoice.amount,
            due_date: invoice.due_date as u64,
            discount_rate: invoice.discount_rate,
            status: invoice.status,
            timestamp: s.ledger.timestamp,
        },
    )
}

/// The invocation after an invoice was given the next number, stored, put on the
/// freelancer's list, counted and announced.
pub open spec fn recorded(s: EnvView, p: InvoiceParams) -> EnvView {
    let invoice = new_invoice(s, p);
    let stored = s.numbered().invoice_saved(invoice).submitter_ids_saved(
        p.freelancer,
        s.submitter_ids(p.freelancer).push(invoice.id),
    );
    stored.with_persistent(
        PersistentView {
            total_invoices: Some((s.total_invoices() + 1) as u64),
            ..stored.persistent
        },
    ).published(submitted_event(s, invoice))
}

/// Whether the counters have room for `n` more invoices.
pub open spec fn room_for(s: EnvView, n: int) -> bool {
    s.invoice_count() + n <= u64::MAX && s.total_invoices() + n <= u64::MAX
}

/// Records one accepted submission.
fn record_invoice(env: &mut Env, p: &InvoiceParams) -> (r: u64)
    requires
        room_for(old(env)@, 1),
        p.due_date <= u32::MAX,
    ensures
        r == old(env)@.invoice_count() + 1,
        final(env)@ == recorded(old(env)@, *p),
{
    let id: u64 = next_invoice_id(env);
    let submitter_reputation: u32 = get_payer_score(env, &p.freelancer);
    let invoice: Invoice = Invoice {
        id,
        freelancer: p.freelancer,
        payer: p.payer,
        token: p.token,
        amount: p.amount,
        due_date: p.due_date as u32,
        discount_rate: p.discount_rate,
        status: InvoiceStatus::Pending,
        funder: None,
        funded_at: None,
        amount_funded: 0,
        amount_paid: 0,
        submitter_reputation,
    };
    save_invoice(env, &invoice);
    add_invoice_to_submitter(env, &p.freelancer, id);
    increment_total_invoices(env);
    let timestamp: u64 = env.ledger.timestamp;
    env.publish_event(
        Event::InvoiceSubmitted(
            InvoiceSubmitted {
                invoice_id: invoice.id,
                freelancer: invoice.freelancer,
                payer: invoice.payer,
                token: invoice.token,
                amount: invoice.amount,
                due_date: invoice.due_date as u64,
                discount_rate: invoice.discount_rate,
                status: invoice.status,
                timestamp,
            },
        ),
    );
    id
}

/// Why one submission is refused on its own terms, if it is.
pub open spec fn item_refusal(s: EnvView, p: InvoiceParams) -> Option<ContractError> {
    match terms_refusal(s, p.amount, p.due_date, p.discount_rate) {
        Some(e) => Some(e),
        None => if !s.approved(p.token) {
            Some(ContractError::Unauthorized)
        } else {
            None
        },
    }
}

/// Why a single submission is refused, if it is.
pub open spec fn submit_refusal(s: EnvView, p: InvoiceParams) -> Option<ContractError> {
    if s.is_paused() {
        Some(ContractError::ContractPaused)
    } else if p.freelancer == p.payer {
        Some(ContractError::SelfInvoice)
    } else {
        item_refusal(s, p)
    }
}

pub(crate) fn check_item(env: &Env, p: &InvoiceParams) -> (r: Option<ContractError>)
    ensures
        r == item_refusal(env@, *p),
{
    match validate_invoice_terms(env, p.amount, p.due_date, p.discount_rate) {
        Err(e) => Some(e),
        Ok(()) => if !is_approved_token(env, &p.token) {
            Some(ContractError::Unauthorized)
        } else {
            None
        },
    }
}

/// Whether `who` is the freelancer of one of the submissions.
pub open spec fn names(items: Seq<InvoiceParams>, who: Address) -> bool {
    exists|i: int| 0 <= i < items.len() && (#[trigger] items[i]).freelancer == who
}

/// The authorisations that a batch asks for: each freelancer once, in the order
/// of their first submissions.
pub open spec fn batch_auths(items: Seq<InvoiceParams>) -> Seq<HostCall>
    decreases items.len(),
{
    if items.len() == 0 {
        Seq::empty()
    } else {
        let before = batch_auths(items.drop_last());
        if names(items.drop_last(), items.last().freelancer) {
            before
        } else {
            before.push(HostCall::RequireAuth(items.last().freelancer))
        }
    }
}

/// Position of the first submission that is refused; the length where none is.
pub open spec fn first_refused(s: EnvView, items: Seq<InvoiceParams>) -> int
    decreases items.len(),
{
    if items.len() == 0 {
        0
    } else {
        let before = first_refused(s, items.drop_last());
        if before < items.len() - 1 {
            before
        } else if item_refusal(s, items.last()) is Some {
            items.len() - 1
        } else {
            items.len() as int
        }
    }
}

/// Why a batch is refused, if it is.
pub open spec fn batch_refusal(s: EnvView, items: Seq<InvoiceParams>) -> Option<ContractError> {
    if s.is_paused() {
        Some(ContractError::ContractPaused)
    } else if items.len() > 10 {
        Some(ContractError::BatchTooLarge)
    } else if first_refused(s, items) < items.len() {
        item_refusal(s, items[first_refused(s, items)])
    } else {
        None
    }
}

/// The invocation after a batch was refused: freelancers were asked to authorise
/// up to the submission that was refused, and nothing else happened.
pub open spec fn batch_refused(s: EnvView, items: Seq<InvoiceParams>) -> EnvView {
    if s.is_paused() || items.len() > 10 {
        s
    } else {
        s.called_all(batch_auths(items.take(first_refused(s, items) + 1)))
    }
}

/// The invocation after every submission of a batch was recorded, each freelancer
/// having authorised before their first.
pub open spec fn batch_recorded(s: EnvView, items: Seq<InvoiceParams>) -> EnvView
    decreases items.len(),
{
    if items.len() == 0 {
        s
    } else {
        let before = batch_recorded(s, items.drop_last());
        let p = items.last();
        if names(items.drop_last(), p.freelancer) {
            recorded(before, p)
        } else {
            recorded(before.authorized(p.freelancer), p)
        }
    }
}

/// A batch of `n` gives out the next `n` numbers.
pub open spec fn batch_ids(s: EnvView, n: nat) -> Seq<u64> {
    Seq::new(n, |i: int| (s.invoice_count() + 1 + i) as u64)
}

pub(crate) proof fn lemma_batch_counts(s: EnvView, items: Seq<InvoiceParams>)
    requires
        room_for(s, items.len() as int),
    ensures
        batch_recorded(s, items).invoice_count() == s.invoice_count() + items.len(),
        batch_recorded(s, items).total_invoices() == s.total_invoices() + items.len(),
    decreases items.len(),
{
    if items.len() > 0 {
        lemma_batch_counts(s, items.drop_last());
    }
}

pub(crate) proof fn lemma_first_refused(s: EnvView, items: Seq<InvoiceParams>, k: int)
    requires
        0 <= k <= items.len(),
        forall|j: int| 0 <= j < k ==> item_refusal(s, #[trigger] items[j]) is None,
        k < items.len() ==> item_refusal(s, items[k]) is Some,
    ensures
        first_refused(s, items) == k,
    decreases items.len(),
{
    if items.len() > 0 {
        let rest = items.drop_last();
        if k < items.len() {
            lemma_first_refused(s, rest, k);
        } else {
            lemma_first_refused(s, rest, k - 1);
        }
    }
}

proof fn lemma_names_step(items: Seq<InvoiceParams>, i: int, who: Address)
    requires
        0 <= i < items.len(),
    ensures
        names(items.take(i + 1), who) <==> names(items.take(i), who) || items[i].freelancer == who,
{
    let (a, b) = (items.take(i), items.take(i + 1));
    if names(a, who) {
        let j = choose|j: int| 0 <= j < a.len() && (#[trigger] a[j]).freelancer == who;
        assert(b[j].freelancer == who);
    }
    if names(b, who) {
        let j = choose|j: int| 0 <= j < b.len() && (#[trigger] b[j]).freelancer == who;
        if j < i {
            assert(a[j].freelancer == who);
        }
    }
    if items[i].freelancer == who {
        assert(b[i].freelancer == who);
    }
}

/// Position of the first submission that is refused; the length where none is.
pub(crate) fn find_refused(env: &Env, items: &Vec<InvoiceParams>) -> (r: usize)
    ensures
        r <= items@.len(),
        r == first_refused(env@, items@),
        forall|j: int| 0 <= j < r ==> item_refusal(env@, #[trigger] items@[j]) is None,
        r < items@.len() ==> item_refusal(env@, items@[r as int]) is Some,
{
    let mut i: usize = 0;
    while i < items.len()
        invariant
            i <= items@.len(),
            forall|j: int| 0 <= j < i ==> item_refusal(env@, #[trigger] items@[j]) is None,
        decreases items@.len() - i,
    {
        if check_item(env, &items[i]).is_some() {
            proof {
                lemma_first_refused(env@, items@, i as int);
            }
            return i;
        }
        i = i + 1;
    }
    proof {
        lemma_first_refused(env@, items@, i as int);
    }
    i
}

/// Asks the freelancers of the first `n` submissions to authorise, each once.
fn authorize_first(env: &mut Env, items: &Vec<InvoiceParams>, n: usize)
    requires
        n <= items@.len(),
    ensures
        final(env)@ == old(env)@.called_all(batch_auths(items@.take(n as int))),
{
    let ghost before = env@;
    let mut authenticated: Vec<Address> = Vec::new();
    let mut i: usize = 0;
    assert(env@.calls =~= before.calls + batch_auths(items@.take(0)));
    while i < n
        invariant
            i <= n <= items@.len(),
            forall|who: Address|
                authenticated@.contains(who) <==> #[trigger] names(items@.take(i as int), who),
            env@ == before.called_all(batch_auths(items@.take(i as int))),
        decreases n - i,
    {
        let who: Address = items[i].freelancer;
        let ghost known = authenticated@;
        if !holds(&authenticated, &who) {
            env.require_auth(who);
            authenticated.push(who);
        }
        proof {
            lemma_authenticated_step(items@, i as int, known, authenticated@);
            assert(items@.take(i + 1).drop_last() =~= items@.take(i as int));
            assert(env@.calls =~= before.calls + batch_auths(items@.take(i + 1)));
        }
        i = i + 1;
    }
}

proof fn lemma_authenticated_step(
    items: Seq<InvoiceParams>,
    i: int,
    known: Seq<Address>,
    next: Seq<Address>,
)
    requires
        0 <= i < items.len(),
        forall|who: Address| known.contains(who) <==> #[trigger] names(items.take(i), who),
        next == (if known.contains(items[i].freelancer) {
            known
        } else {
            known.push(items[i].freelancer)
        }),
    ensures
        forall|who: Address| next.contains(who) <==> #[trigger] names(items.take(i + 1), who),
{
    let f = items[i].freelancer;
    assert forall|who: Address|
        next.contains(who) <==> #[trigger] names(items.take(i + 1), who) by {
        lemma_names_step(items, i, who);
        assert(known.contains(who) <==> names(items.take(i), who));
        if !known.contains(f) {
            if known.contains(who) {
                assert(next[known.index_of(who)] == who);
            }
            if next.contains(who) && who != f {
                assert(known[next.index_of(who)] == who);
            }
            if who == f {
                assert(next[known.len() as int] == who);
            }
        }
    }
}

/// An invoice that waits for funding past its due date is over.
pub open spec fn lapsed(s: EnvView, id: u64) -> bool {
    s.invoice(id).status == InvoiceStatus::Pending && s.ledger.timestamp >= s.invoice(id).due_date
}

/// The invocation after invoice `id` was marked expired.
pub open spec fn expired(s: EnvView, id: u64) -> EnvView {
    s.invoice_saved(Invoice { status: InvoiceStatus::Expired, ..s.invoice(id) })
}

/// Why an update is refused, if it is.
pub open spec fn update_refusal(
    s: EnvView,
    freelancer: Address,
    id: u64,
    amount: i128,
    due_date: u64,
    discount_rate: u32,
) -> Option<ContractError> {
    if s.is_paused() {
        Some(ContractError::ContractPaused)
    } else if !s.has_invoice(id) {
        Some(ContractError::InvoiceNotFound)
    } else if freelancer != s.invoice(id).freelancer {
        Some(ContractError::Unauthorized)
    } else if lapsed(s, id) {
        Some(ContractError::InvoiceExpired)
    } else {
        match s.invoice(id).status.spec_pending_error() {
            Some(e) => Some(e),
            None => terms_refusal(s, amount, due_date, discount_rate),
        }
    }
}

/// The invocation after an update was refused. A lapsed invoice is marked as
/// such.
pub open spec fn update_refused(s: EnvView, freelancer: Address, id: u64) -> EnvView {
    if s.is_paused() || !s.has_invoice(id) {
        s
    } else if freelancer == s.invoice(id).freelancer && lapsed(s, id) {
        expired(s.authorized(freelancer), id)
    } else {
        s.authorized(freelancer)
    }
}

/// The invocation after the terms of an invoice were replaced and announced.
pub open spec fn terms_updated(
    s: EnvView,
    id: u64,
    amount: i128,
    due_date: u64,
    discount_rate: u32,
) -> EnvView {
    let invoice = Invoice { amount, due_date: due_date as u32, discount_rate, ..s.invoice(id) };
    s.authorized(invoice.freelancer).invoice_saved(invoice).published(
        Event::InvoiceUpdated(
            InvoiceUpdated {
                invoice_id: invoice.id,
                freelancer: invoice.freelancer,
                payer: invoice.payer,
                token: invoice.token,
                amount,
                due_date,
                discount_rate,
                status: invoice.status,
            },
        ),
    )
}

/// Why a transfer is refused, if it is.
pub open spec fn transfer_refusal(s: EnvView, id: u64) -> Option<ContractError> {
    if s.is_paused() {
        Some(ContractError::ContractPaused)
    } else if !s.has_invoice(id) {
        Some(ContractError::InvoiceNotFound)
    } else {
        s.invoice(id).status.spec_pending_error()
    }
}

/// The invocation after an invoice was handed to another freelancer, on whose
/// list it now stands.
pub open spec fn transferred(s: EnvView, id: u64, to: Address) -> EnvView {
    let from = s.invoice(id).freelancer;
    let saved = s.authorized(from).invoice_saved(Invoice { freelancer: to, ..s.invoice(id) });
    let taken = saved.submitter_ids_saved(from, without(s.submitter_ids(from), id));
    taken.submitter_ids_saved(to, taken.submitter_ids(to).push(id)).published(
        Event::InvoiceTransferred(
            InvoiceTransferred {
                invoice_id: id,
                old_freelancer: from,
                new_freelancer: to,
                status: s.invoice(id).status,
            },
        ),
    )
}

/// Why a cancellation is refused, if it is.
pub open spec fn cancel_refusal(s: EnvView, id: u64) -> Option<ContractError> {
    if s.is_paused() {
        Some(ContractError::ContractPaused)
    } else if !s.has_invoice(id) {
        Some(ContractError::InvoiceNotFound)
    } else {
        s.invoice(id).status.spec_fundable_error()
    }
}

/// The invocation after an invoice was cancelled. Whoever has funded a part of it
/// gets back what they paid.
pub open spec fn cancelled(s: EnvView, id: u64) -> EnvView {
    let invoice = s.invoice(id);
    let asked = s.authorized(invoice.freelancer);
    let refunded = if invoice.status == InvoiceStatus::PartiallyFunded {
        asked.called_all(
            refund_calls(
                s.funders(id),
                invoice.discount_rate as int,
                invoice.token,
                s.contract,
            ),
        )
    } else {
        asked
    };
    refunded.invoice_saved(Invoice { status: InvoiceStatus::Cancelled, ..invoice }).published(
        Event::InvoiceCancelled(
            InvoiceCancelled {
                invoice_id: id,
                freelancer: invoice.freelancer,
                status: InvoiceStatus::Cancelled,
            },
        ),
    )
}

/// The invocation after a transfer or a cancellation was refused: the freelancer
/// of an invoice that exists was asked to authorise.
pub open spec fn owner_refused(s: EnvView, id: u64) -> EnvView {
    if s.is_paused() || !s.has_invoice(id) {
        s
    } else {
        s.authorized(s.invoice(id).freelancer)
    }
}

/// Why an expiry is refused, if it is.
pub open spec fn expire_refusal(s: EnvView, id: u64) -> Option<ContractError> {
    if !s.has_invoice(id) {
        Some(ContractError::InvoiceNotFound)
    } else if s.ledger.timestamp < s.invoice(id).due_date {
        Some(ContractError::NotYetDefaulted)
    } else {
        s.invoice(id).status.spec_pending_error()
    }
}

impl InvoiceLiquidityContract {
    /// Submits an invoice and returns its number. Access: submitter only.
    pub fn submit_invoice(
        env: &mut Env,
        freelancer: Address,
        payer: Address,
        amount: i128,
        due_date: u64,
        discount_rate: u32,
        token: Address,
    ) -> (r: Result<u64, ContractError>)
        requires
            submit_refusal(
                old(env)@,
                InvoiceParams { freelancer, payer, amount, due_date, discount_rate, token },
            ) is None ==> room_for(old(env)@, 1),
        ensures
            ({
                let p = InvoiceParams {
                    freelancer,
                    payer,
                    amount,
                    due_date,
                    discount_rate,
                    token,
                };
                match submit_refusal(old(env)@, p) {
                    Some(e) => r == Err::<u64, ContractError>(e) && final(env)@ == (if old(
                        env)@.is_paused() {
                        old(env)@
                    } else {
                        old(env)@.authorized(freelancer)
                    }),
                    None => r == Ok::<u64, ContractError>((old(env)@.invoice_count() + 1) as u64)
                        && final(env)@ == recorded(old(env)@.authorized(freelancer), p),
                }
            }),
    {
        if is_paused(env) {
            return Err(ContractError::ContractPaused);
        }
        require_submitter(env, &freelancer)?;
        if freelancer == payer {
            return Err(ContractError::SelfInvoice);
        }
        let p: InvoiceParams = InvoiceParams {
            freelancer,
            payer,
            amount,
            due_date,
            discount_rate,
            token,
        };
        validate_invoice_terms(env, amount, due_date, discount_rate)?;
        if !is_approved_token(env, &token) {
            return Err(ContractError::Unauthorized);
        }
        Ok(record_invoice(env, &p))
    }

    /// Corrects the terms of an invoice that nobody has funded yet. Access:
    /// submitter only.
    pub fn update_invoice(
        env: &mut Env,
        freelancer: Address,
        invoice_id: u64,
        amount: i128,
        due_date: u64,
        discount_rate: u32,
    ) -> (r: Result<(), ContractError>)
        ensures
            match update_refusal(
                old(env)@,
                freelancer,
                invoice_id,
                amount,
                due_date,
                discount_rate,
            ) {
                Some(e) => r == Err::<(), ContractError>(e) && final(env)@ == update_refused(
                    old(env)@,
                    freelancer,
                    invoice_id,
                ),
                None => r == Ok::<(), ContractError>(()) && final(env)@ == terms_updated(
                    old(env)@,
                    invoice_id,
                    amount,
                    due_date,
                    discount_rate,
                ),
            },
    {
        if is_paused(env) {
            return Err(ContractError::ContractPaused);
        }
        if !invoice_exists(env, invoice_id) {
            return Err(ContractError::InvoiceNotFound);
        }
        let mut invoice: Invoice = load_invoice(env, invoice_id);
        require_submitter_by_id(env, &freelancer, invoice_id)?;
        if invoice.status == InvoiceStatus::Pending && env.ledger.timestamp
            >= invoice.due_date as u64 {
            invoice.status = InvoiceStatus::Expired;
            save_invoice(env, &invoice);
            return Err(ContractError::InvoiceExpired);
        }
        if let Some(e) = invoice.status.pending_error() {
            return Err(e);
        }
        validate_invoice_terms(env, amount, due_date, discount_rate)?;
        invoice.amount = amount;
        invoice.due_date = due_date as u32;
        invoice.discount_rate = discount_rate;
        save_invoice(env, &invoice);
        env.publish_event(
            Event::InvoiceUpdated(
                InvoiceUpdated {
                    invoice_id: invoice.id,
                    freelancer: invoice.freelancer,
                    payer: invoice.payer,
                    token: invoice.token,
                    amount: invoice.amount,
                    due_date: invoice.due_date as u64,
                    discount_rate: invoice.discount_rate,
                    status: invoice.status,
                },
            ),
        );
        Ok(())
    }

    /// Submits up to ten invoices: all of them, or none. Access: submitters only.
    pub fn submit_invoices_batch(env: &mut Env, invoices: Vec<InvoiceParams>) -> (r: Result<
        Vec<u64>,
        ContractError,
    >)
        requires
            batch_refusal(old(env)@, invoices@) is None ==> room_for(
                old(env)@,
                invoices@.len() as int,
            ),
        ensures
            match batch_refusal(old(env)@, invoices@) {
                Some(e) => r == Err::<Vec<u64>, ContractError>(e) && final(env)@ == batch_refused(
                    old(env)@,
                    invoices@,
                ),
                None => r is Ok && r->Ok_0@ == batch_ids(old(env)@, invoices@.len()) && final(
                    env)@ == batch_recorded(old(env)@, invoices@),
            },
    {
        if is_paused(env) {
            return Err(ContractError::ContractPaused);
        }
        if invoices.len() > 10 {
            return Err(ContractError::BatchTooLarge);
        }
        let refused: usize = find_refused(env, &invoices);
        if refused < invoices.len() {
            let error: Option<ContractError> = check_item(env, &invoices[refused]);
            authorize_first(env, &invoices, refused + 1);
            return Err(error.unwrap());
        }
        let ghost before = env@;
        let mut authenticated: Vec<Address> = Vec::new();
        let mut ids: Vec<u64> = Vec::new();
        let mut i: usize = 0;
        assert(invoices@.take(0) =~= Seq::empty());
        while i < invoices.len()
            invariant
                i <= invoices@.len(),
                room_for(before, invoices@.len() as int),
                forall|j: int|
                    0 <= j < invoices@.len() ==> item_refusal(before, #[trigger] invoices@[j])
                        is None,
                forall|who: Address|
                    authenticated@.contains(who) <==> #[trigger] names(
                        invoices@.take(i as int),
                        who,
                    ),
                env@ == batch_recorded(before, invoices@.take(i as int)),
                ids@ == batch_ids(before, i as nat),
            decreases invoices@.len() - i,
        {
            let p: InvoiceParams = invoices[i];
            let ghost known = authenticated@;
            proof {
                assert(invoices@.take(i + 1).drop_last() =~= invoices@.take(i as int));
                lemma_batch_counts(before, invoices@.take(i as int));
                assert(item_refusal(before, invoices@[i as int]) is None);
            }
            if !holds(&authenticated, &p.freelancer) {
                require_submitter(env, &p.freelancer)?;
                authenticated.push(p.freelancer);
            }
            ids.push(record_invoice(env, &p));
            proof {
                lemma_authenticated_step(invoices@, i as int, known, authenticated@);
                assert(ids@ =~= batch_ids(before, (i + 1) as nat));
            }
            i = i + 1;
        }
        assert(invoices@.take(i as int) =~= invoices@);
        Ok(ids)
    }

    /// Hands an invoice that nobody has funded yet to another freelancer. Access:
    /// submitter only.
    pub fn transfer_invoice(env: &mut Env, invoice_id: u64, new_freelancer: Address) -> (r: Result<
        (),
        ContractError,
    >)
        ensures
            match transfer_refusal(old(env)@, invoice_id) {
                Some(e) => r == Err::<(), ContractError>(e) && final(env)@ == owner_refused(
                    old(env)@,
                    invoice_id,
                ),
                None => r == Ok::<(), ContractError>(()) && final(env)@ == transferred(
                    old(env)@,
                    invoice_id,
                    new_freelancer,
                ),
            },
    {
        if is_paused(env) {
            return Err(ContractError::ContractPaused);
        }
        if !invoice_exists(env, invoice_id) {
            return Err(ContractError::InvoiceNotFound);
        }
        let mut invoice: Invoice = load_invoice(env, invoice_id);
        require_submitter_by_id(env, &invoice.freelancer, invoice_id)?;
        if let Some(e) = invoice.status.pending_error() {
            return Err(e);
        }
        let old_freelancer: Address = invoice.freelancer;
        invoice.freelancer = new_freelancer;
        save_invoice(env, &invoice);
        remove_invoice_from_submitter(env, &old_freelancer, invoice_id);
        add_invoice_to_submitter(env, &new_freelancer, invoice_id);
        env.publish_event(
            Event::InvoiceTransferred(
                InvoiceTransferred {
                    invoice_id,
                    old_freelancer,
                    new_freelancer,
                    status: invoice.status,
                },
            ),
        );
        Ok(())
    }

    /// Cancels an invoice that is not funded in full. Access: submitter only.
    pub fn cancel_invoice(env: &mut Env, invoice_id: u64) -> (r: Result<(), ContractError>)
        ensures
            match cancel_refusal(old(env)@, invoice_id) {
                Some(e) => r == Err::<(), ContractError>(e) && final(env)@ == owner_refused(
                    old(env)@,
                    invoice_id,
                ),
                None => r == Ok::<(), ContractError>(()) && final(env)@ == cancelled(
                    old(env)@,
                    invoice_id,
                ),
            },
    {
        if is_paused(env) {
            return Err(ContractError::ContractPaused);
        }
        if !invoice_exists(env, invoice_id) {
            return Err(ContractError::InvoiceNotFound);
        }
        let mut invoice: Invoice = load_invoice(env, invoice_id);
        require_submitter_by_id(env, &invoice.freelancer, invoice_id)?;
        if let Some(e) = invoice.status.fundable_error() {
            return Err(e);
        }
        if invoice.status == InvoiceStatus::PartiallyFunded {
            let funders: Vec<(Address, i128)> = get_invoice_funders(env, invoice_id);
            refund_all(env, &funders, invoice.discount_rate, invoice.token);
        }
        invoice.status = InvoiceStatus::Cancelled;
        save_invoice(env, &invoice);
        env.publish_event(
            Event::InvoiceCancelled(
                InvoiceCancelled {
                    invoice_id,
                    freelancer: invoice.freelancer,
                    status: invoice.status,
                },
            ),
        );
        Ok(())
    }

    /// Marks an invoice that nobody has funded by its due date as expired.
    /// Access: anyone.
    pub fn expire_invoice(env: &mut Env, invoice_id: u64) -> (r: Result<(), ContractError>)
        ensures
            match expire_refusal(old(env)@, invoice_id) {
                Some(e) => r == Err::<(), ContractError>(e) && final(env)@ == old(env)@,
                None => r == Ok::<(), ContractError>(()) && final(env)@ == expired(
                    old(env)@,
                    invoice_id,
                ),
            },
    {
        if !invoice_exists(env, invoice_id) {
            return Err(ContractError::InvoiceNotFound);
        }
        let mut invoice: Invoice = load_invoice(env, invoice_id);
        if env.ledger.timestamp < invoice.due_date as u64 {
            return Err(ContractError::NotYetDefaulted);
        }
        if let Some(e) = invoice.status.pending_error() {
            return Err(e);
        }
        invoice.status = InvoiceStatus::Expired;
        save_invoice(env, &invoice);
        Ok(())
    }
}

} // verus!

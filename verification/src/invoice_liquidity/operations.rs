//! What each operation does, said of the operation itself: what it answers to which
//! request, and what it leaves behind.
//!
//! Every law here speaks of a call that was made, by its arguments, its result and
//! the invocation before and after.

use crate::host::Address;
use crate::invoice_liquidity::contract::InvoiceLiquidityContract;
use crate::invoice_liquidity::contributions::{
    first_entry, law_contributors_have_an_entry, lemma_first_entry,
};
use crate::invoice_liquidity::env::{Env, EnvView, HostCall, PersistentView};
use crate::invoice_liquidity::errors::ContractError;
use crate::invoice_liquidity::events::{
    Event, FundQueueResolved, FundRequested, InvoiceCancelled, InvoiceFunded, InvoiceSubmitted,
    InvoiceTransferred, InvoiceUpdated,
};
use crate::invoice_liquidity::flows::{basis_points, lemma_funded_calls, lemma_refund_row};
use crate::invoice_liquidity::funding::{best_request, law_highest_score_wins_the_queue};
use crate::invoice_liquidity::invoice::{Invoice, InvoiceParams, InvoiceStatus, LpFundRequest};
use crate::invoice_liquidity::storage::DataKey;
use crate::invoice_liquidity::submission::{
    batch_auths, batch_recorded, first_refused, item_refusal, lemma_batch_counts,
    lemma_first_refused,
};
use crate::list::{law_without_keeps_the_order, other_than};
use vstd::prelude::*;

verus! {

// ----------------------------------------------------------------
// What is read
// ----------------------------------------------------------------

/// What the entries of storage say: an entry that is there is what was stored, one
/// that is not reads as the neutral value.
pub proof fn law_entries_read_as_stored(s: EnvView, id: u64, who: Address)
    ensures
        s.is_paused() <==> s.instance.paused == Some(true),
        s.has_invoice(id) <==> s.persistent.invoices.contains_key(id),
        s.invoice(id) == s.persistent.invoices[id],
        s.funders(id) == (if s.persistent.invoice_funders.contains_key(id) {
            s.persistent.invoice_funders[id]
        } else {
            Seq::empty()
        }),
        s.submitter_ids(who) == (if s.persistent.submitter_invoices.contains_key(who) {
            s.persistent.submitter_invoices[who]
        } else {
            Seq::empty()
        }),
        s.lp_ids(who) == (if s.persistent.lp_invoices.contains_key(who) {
            s.persistent.lp_invoices[who]
        } else {
            Seq::empty()
        }),
        s.fund_queue(id) == (if s.persistent.fund_queues.contains_key(id) {
            s.persistent.fund_queues[id]
        } else {
            Seq::empty()
        }),
        s.token_list() == (match s.persistent.token_list {
            Some(list) => list,
            None => Seq::empty(),
        }),
        s.approved(who) <==> s.persistent.approved_tokens.contains_key(who)
            && s.persistent.approved_tokens[who],
        s.is_xlm(who) <==> s.instance.config is Some && s.instance.config->0.xlm_sac_address
            == who,
        s.lp_score(who) == (if s.persistent.lp_scores.contains_key(who) {
            s.persistent.lp_scores[who]
        } else {
            50
        }),
        s.min_payer_reputation() == (match s.instance.min_payer_reputation {
            Some(n) => n,
            None => 0,
        }),
        s.queue_resolution(id) == (if s.persistent.queue_resolutions.contains_key(id) {
            Some(s.persistent.queue_resolutions[id])
        } else {
            None
        }),
        s.appeal(id) == (if s.persistent.appeals.contains_key(id) {
            Some(s.persistent.appeals[id])
        } else {
            None
        }),
        s.dispute(id) == (if s.persistent.disputes.contains_key(id) {
            Some(s.persistent.disputes[id])
        } else {
            None
        }),
        s.token_volume(who) == (if s.persistent.token_volumes.contains_key(who) {
            s.persistent.token_volumes[who]
        } else {
            0
        }),
        s.invoice_count() == (match s.persistent.invoice_count {
            Some(n) => n,
            None => 0,
        }),
        s.total_invoices() == (match s.persistent.total_invoices {
            Some(n) => n,
            None => 0,
        }),
        s.total_funded() == (match s.persistent.total_funded {
            Some(n) => n,
            None => 0,
        }),
        s.total_paid() == (match s.persistent.total_paid {
            Some(n) => n,
            None => 0,
        }),
{
}

/// What a request is answered that the status of the invoice does not admit. Whatever
/// is over or in contention says so; beyond that, correcting needs an invoice without
/// funding, funding one that is not complete, and settling one that is.
pub proof fn law_statuses_are_answered(status: InvoiceStatus)
    ensures
        status.spec_closed_error() == (match status {
            InvoiceStatus::Pending => None,
            InvoiceStatus::PartiallyFunded => None,
            InvoiceStatus::Funded => None,
            InvoiceStatus::Paid => Some(ContractError::AlreadyPaid),
            InvoiceStatus::Defaulted => Some(ContractError::InvoiceDefaulted),
            InvoiceStatus::Appealed => Some(ContractError::InvoiceAppealed),
            InvoiceStatus::Disputed => Some(ContractError::InvoiceDisputed),
            InvoiceStatus::Expired => Some(ContractError::InvoiceExpired),
            InvoiceStatus::Cancelled => Some(ContractError::AlreadyCancelled),
        }),
        status.spec_pending_error() == (if status == InvoiceStatus::PartiallyFunded || status
            == InvoiceStatus::Funded {
            Some(ContractError::AlreadyFunded)
        } else {
            status.spec_closed_error()
        }),
        status.spec_fundable_error() == (if status == InvoiceStatus::Funded {
            Some(ContractError::AlreadyFunded)
        } else {
            status.spec_closed_error()
        }),
        status.spec_funded_error() == (if status == InvoiceStatus::Pending || status
            == InvoiceStatus::PartiallyFunded {
            Some(ContractError::NotFunded)
        } else {
            status.spec_closed_error()
        }),
{
}

/// What the terms of a submission are answered: an amount of at least a million, a
/// discount above nothing and within the cap, a due date that fits 32 bits and lies
/// from a day to a year ahead, and a token on the allowlist.
pub proof fn law_terms_are_checked(s: EnvView, p: InvoiceParams)
    ensures
        item_refusal(s, p) == (if p.amount < 1_000_000 {
            Some(ContractError::InvalidAmount)
        } else if p.discount_rate == 0 || p.discount_rate > (match s.instance.max_discount_rate {
            Some(cap) => cap,
            None => 5000,
        }) {
            Some(ContractError::InvalidDiscountRate)
        } else if p.due_date > u32::MAX || p.due_date <= s.ledger.timestamp {
            Some(ContractError::InvalidDueDate)
        } else if p.due_date < s.ledger.timestamp + 24 * 60 * 60 {
            Some(ContractError::DueDateTooSoon)
        } else if p.due_date > s.ledger.timestamp + 365 * 24 * 60 * 60 {
            Some(ContractError::DueDateTooFar)
        } else if !s.approved(p.token) {
            Some(ContractError::Unauthorized)
        } else {
            None
        }),
{
}

// ----------------------------------------------------------------
// Submission
// ----------------------------------------------------------------

/// Submitting asks the freelancer, and refuses an invoice to oneself and terms that
/// are not admitted. A submission that is accepted gets the next number; the invoice
/// is stored with the terms that were asked for, unfunded and unpaid, with the score
/// that the freelancer has at that moment, and is put last on their list.
pub proof fn law_submit_invoice(
    env: &mut Env,
    freelancer: Address,
    payer: Address,
    amount: i128,
    due_date: u64,
    discount_rate: u32,
    token: Address,
    r: Result<u64, ContractError>,
)
    requires
        call_ensures(
            InvoiceLiquidityContract::submit_invoice,
            (env, freelancer, payer, amount, due_date, discount_rate, token),
            r,
        ),
        old(env)@.invoice_count() < u64::MAX,
        old(env)@.total_invoices() < u64::MAX,
    ensures
        ({
            let s = old(env)@;
            let n = (s.invoice_count() + 1) as u64;
            let ttl = |key: DataKey|
                HostCall::ExtendTtl { key, threshold: 1_000_000, extend_to: 2_000_000 };
            let p = InvoiceParams { freelancer, payer, amount, due_date, discount_rate, token };
            if s.is_paused() {
                r == Err::<u64, ContractError>(ContractError::ContractPaused) && final(env)@ == s
            } else if freelancer == payer || item_refusal(s, p) is Some {
                &&& r == Err::<u64, ContractError>(
                    if freelancer == payer {
                        ContractError::SelfInvoice
                    } else {
                        item_refusal(s, p)->0
                    },
                )
                &&& final(env)@ == (EnvView {
                    calls: s.calls.push(HostCall::RequireAuth(freelancer)),
                    ..s
                })
            } else {
                &&& r == Ok::<u64, ContractError>(n)
                &&& final(env)@ == (EnvView {
                    persistent: PersistentView {
                        invoices: s.persistent.invoices.insert(
                            n,
                            Invoice {
                                id: n,
                                freelancer,
                                payer,
                                token,
                                amount,
                                due_date: due_date as u32,
                                discount_rate,
                                status: InvoiceStatus::Pending,
                                funder: None,
                                funded_at: None,
                                amount_funded: 0,
                                amount_paid: 0,
                                submitter_reputation: s.payer_score(freelancer),
                            },
                        ),
                        invoice_count: Some(n),
                        submitter_invoices: s.persistent.submitter_invoices.insert(
                            freelancer,
                            s.submitter_ids(freelancer).push(n),
                        ),
                        total_invoices: Some((s.total_invoices() + 1) as u64),
                        ..s.persistent
                    },
                    calls: s.calls + seq![
                        HostCall::RequireAuth(freelancer),
                        ttl(DataKey::InvoiceCount),
                        ttl(DataKey::Invoice(n)),
                        ttl(DataKey::SubmitterInvoices(freelancer)),
                        HostCall::Publish(
                            Event::InvoiceSubmitted(
                                InvoiceSubmitted {
                                    invoice_id: n,
                                    freelancer,
                                    payer,
                                    token,
                                    amount,
                                    due_date,
                                    discount_rate,
                                    status: InvoiceStatus::Pending,
                                    timestamp: s.ledger.timestamp,
                                },
                            ),
                        ),
                    ],
                    ..s
                })
            }
        }),
{
}

/// A batch of more than ten is refused, and so is one with terms that are not admitted:
/// the first of those says why. A batch that is refused leaves storage as it was. The
/// freelancers up to that one are asked.
pub proof fn law_batches_are_answered(
    env: &mut Env,
    items: Vec<InvoiceParams>,
    r: Result<Vec<u64>, ContractError>,
    i: int,
)
    requires
        call_ensures(InvoiceLiquidityContract::submit_invoices_batch, (env, items), r),
        0 <= i <= items@.len(),
        forall|j: int| 0 <= j < i ==> item_refusal(old(env)@, #[trigger] items@[j]) is None,
        i < items@.len() ==> item_refusal(old(env)@, items@[i]) is Some,
    ensures
        ({
            let s = old(env)@;
            if s.is_paused() {
                r == Err::<Vec<u64>, ContractError>(ContractError::ContractPaused) && final(env)@
                    == s
            } else if items@.len() > 10 {
                r == Err::<Vec<u64>, ContractError>(ContractError::BatchTooLarge) && final(env)@
                    == s
            } else if i < items@.len() {
                &&& r == Err::<Vec<u64>, ContractError>(item_refusal(s, items@[i])->0)
                &&& final(env)@ == (EnvView {
                    calls: s.calls + batch_auths(items@.take(i + 1)),
                    ..s
                })
            } else {
                r is Ok
            }
        }),
{
    lemma_first_refused(old(env)@, items@, i);
}

/// Whoever is named in a batch is asked once, when they are named first.
pub proof fn law_a_batch_asks_everyone_once(items: Seq<InvoiceParams>, p: InvoiceParams)
    ensures
        batch_auths(Seq::empty()) == Seq::<HostCall>::empty(),
        batch_auths(items.push(p)) == (if exists|i: int|
            0 <= i < items.len() && (#[trigger] items[i]).freelancer == p.freelancer {
            batch_auths(items)
        } else {
            batch_auths(items).push(HostCall::RequireAuth(p.freelancer))
        }),
{
    assert(items.push(p).drop_last() =~= items);
}

/// A batch records its submissions one after the other. An empty one records nothing. A
/// longer one does what the batch without its last submission does, and then records
/// that: under the next number, with the terms that were asked for, unfunded and unpaid,
/// with the score of the freelancer, and last on their list.
pub proof fn law_submit_invoices_batch(
    env: &mut Env,
    items: Vec<InvoiceParams>,
    r: Result<Vec<u64>, ContractError>,
    fewer: &mut Env,
    others: Vec<InvoiceParams>,
    q: Result<Vec<u64>, ContractError>,
)
    requires
        call_ensures(InvoiceLiquidityContract::submit_invoices_batch, (env, items), r),
        call_ensures(InvoiceLiquidityContract::submit_invoices_batch, (fewer, others), q),
        r is Ok,
        q is Ok,
        old(fewer)@ == old(env)@,
        items@.len() > 0 ==> others@ == items@.drop_last(),
        old(env)@.invoice_count() + items@.len() <= u64::MAX,
        old(env)@.total_invoices() + items@.len() <= u64::MAX,
    ensures
        items@.len() == 0 ==> final(env)@ == old(env)@ && r->Ok_0@ == Seq::<u64>::empty(),
        items@.len() > 0 ==> ({
            let p = items@.last();
            let s = final(fewer)@;
            let n = (old(env)@.invoice_count() + items@.len()) as u64;
            let ttl = |key: DataKey|
                HostCall::ExtendTtl { key, threshold: 1_000_000, extend_to: 2_000_000 };
            let asked = if exists|i: int|
                0 <= i < others@.len() && (#[trigger] others@[i]).freelancer == p.freelancer {
                Seq::empty()
            } else {
                seq![HostCall::RequireAuth(p.freelancer)]
            };
            &&& r->Ok_0@ == q->Ok_0@.push(n)
            &&& final(env)@ == (EnvView {
                persistent: PersistentView {
                    invoices: s.persistent.invoices.insert(
                        n,
                        Invoice {
                            id: n,
                            freelancer: p.freelancer,
                            payer: p.payer,
                            token: p.token,
                            amount: p.amount,
                            due_date: p.due_date as u32,
                            discount_rate: p.discount_rate,
                            status: InvoiceStatus::Pending,
                            funder: None,
                            funded_at: None,
                            amount_funded: 0,
                            amount_paid: 0,
                            submitter_reputation: s.payer_score(p.freelancer),
                        },
                    ),
                    invoice_count: Some(n),
                    submitter_invoices: s.persistent.submitter_invoices.insert(
                        p.freelancer,
                        s.submitter_ids(p.freelancer).push(n),
                    ),
                    total_invoices: Some((old(env)@.total_invoices() + items@.len()) as u64),
                    ..s.persistent
                },
                calls: s.calls + asked + seq![
                    ttl(DataKey::InvoiceCount),
                    ttl(DataKey::Invoice(n)),
                    ttl(DataKey::SubmitterInvoices(p.freelancer)),
                    HostCall::Publish(
                        Event::InvoiceSubmitted(
                            InvoiceSubmitted {
                                invoice_id: n,
                                freelancer: p.freelancer,
                                payer: p.payer,
                                token: p.token,
                                amount: p.amount,
                                due_date: p.due_date,
                                discount_rate: p.discount_rate,
                                status: InvoiceStatus::Pending,
                                timestamp: old(env)@.ledger.timestamp,
                            },
                        ),
                    ),
                ],
                ..s
            })
        }),
{
    let s = old(env)@;
    if items@.len() > 0 {
        let rest = items@.drop_last();
        lemma_batch_counts(s, rest);
        lemma_batch_keeps_the_ledger(s, rest);
        lemma_refused_one_is_refused(s, items@);
        assert(item_refusal(s, items@.last()) is None);
    }
}

/// The submission that is found to be refused is.
proof fn lemma_refused_one_is_refused(s: EnvView, items: Seq<InvoiceParams>)
    ensures
        0 <= first_refused(s, items) <= items.len(),
        first_refused(s, items) < items.len() ==> item_refusal(
            s,
            items[first_refused(s, items)],
        ) is Some,
    decreases items.len(),
{
    if items.len() > 0 {
        lemma_refused_one_is_refused(s, items.drop_last());
    }
}

/// A batch does not change the ledger.
proof fn lemma_batch_keeps_the_ledger(s: EnvView, items: Seq<InvoiceParams>)
    ensures
        batch_recorded(s, items).ledger == s.ledger,
    decreases items.len(),
{
    if items.len() > 0 {
        lemma_batch_keeps_the_ledger(s, items.drop_last());
    }
}

/// Updating is for the freelancer of an invoice that waits for funding, within the same
/// terms as a submission. An invoice whose due date has come is marked as expired
/// instead. An update replaces the terms and nothing else.
pub proof fn law_update_invoice(
    env: &mut Env,
    freelancer: Address,
    invoice_id: u64,
    amount: i128,
    due_date: u64,
    discount_rate: u32,
    r: Result<(), ContractError>,
)
    requires
        call_ensures(
            InvoiceLiquidityContract::update_invoice,
            (env, freelancer, invoice_id, amount, due_date, discount_rate),
            r,
        ),
        old(env)@.persistent.invoices[invoice_id].id == invoice_id,
    ensures
        ({
            let s = old(env)@;
            let v = s.persistent.invoices[invoice_id];
            let now = s.ledger.timestamp;
            let lapsed = v.status == InvoiceStatus::Pending && now >= v.due_date;
            let ttl = HostCall::ExtendTtl {
                key: DataKey::Invoice(invoice_id),
                threshold: 1_000_000,
                extend_to: 2_000_000,
            };
            let cap = match s.instance.max_discount_rate {
                Some(cap) => cap,
                None => 5000,
            };
            let refusal = if s.is_paused() {
                Some(ContractError::ContractPaused)
            } else if !s.has_invoice(invoice_id) {
                Some(ContractError::InvoiceNotFound)
            } else if freelancer != v.freelancer {
                Some(ContractError::Unauthorized)
            } else if lapsed {
                Some(ContractError::InvoiceExpired)
            } else if v.status.spec_pending_error() is Some {
                v.status.spec_pending_error()
            } else if amount < 1_000_000 {
                Some(ContractError::InvalidAmount)
            } else if discount_rate == 0 || discount_rate > cap {
                Some(ContractError::InvalidDiscountRate)
            } else if due_date > u32::MAX || due_date <= now {
                Some(ContractError::InvalidDueDate)
            } else if due_date < now + 24 * 60 * 60 {
                Some(ContractError::DueDateTooSoon)
            } else if due_date > now + 365 * 24 * 60 * 60 {
                Some(ContractError::DueDateTooFar)
            } else {
                None
            };
            match refusal {
                Some(e) => {
                    &&& r == Err::<(), ContractError>(e)
                    &&& final(env)@ == (if s.is_paused() || !s.has_invoice(invoice_id) {
                        s
                    } else if freelancer == v.freelancer && lapsed {
                        EnvView {
                            persistent: PersistentView {
                                invoices: s.persistent.invoices.insert(
                                    invoice_id,
                                    Invoice { status: InvoiceStatus::Expired, ..v },
                                ),
                                ..s.persistent
                            },
                            calls: s.calls + seq![HostCall::RequireAuth(freelancer), ttl],
                            ..s
                        }
                    } else {
                        EnvView { calls: s.calls.push(HostCall::RequireAuth(freelancer)), ..s }
                    })
                },
                None => {
                    &&& r == Ok::<(), ContractError>(())
                    &&& final(env)@ == (EnvView {
                        persistent: PersistentView {
                            invoices: s.persistent.invoices.insert(
                                invoice_id,
                                Invoice { amount, due_date: due_date as u32, discount_rate, ..v },
                            ),
                            ..s.persistent
                        },
                        calls: s.calls + seq![
                            HostCall::RequireAuth(freelancer),
                            ttl,
                            HostCall::Publish(
                                Event::InvoiceUpdated(
                                    InvoiceUpdated {
                                        invoice_id,
                                        freelancer,
                                        payer: v.payer,
                                        token: v.token,
                                        amount,
                                        due_date,
                                        discount_rate,
                                        status: InvoiceStatus::Pending,
                                    },
                                ),
                            ),
                        ],
                        ..s
                    })
                },
            }
        }),
{
}

/// Handing an invoice over is for its freelancer, while it waits for funding. It changes
/// who the freelancer is and nothing else of the invoice, takes it off the list of the
/// old one and puts it last on that of the new one.
pub proof fn law_transfer_invoice(
    env: &mut Env,
    invoice_id: u64,
    to: Address,
    r: Result<(), ContractError>,
)
    requires
        call_ensures(InvoiceLiquidityContract::transfer_invoice, (env, invoice_id, to), r),
        old(env)@.persistent.invoices[invoice_id].id == invoice_id,
    ensures
        ({
            let s = old(env)@;
            let v = s.persistent.invoices[invoice_id];
            let from = v.freelancer;
            let ttl = |key: DataKey|
                HostCall::ExtendTtl { key, threshold: 1_000_000, extend_to: 2_000_000 };
            let left = s.submitter_ids(from).filter(other_than(invoice_id));
            let refusal = if s.is_paused() {
                Some(ContractError::ContractPaused)
            } else if !s.has_invoice(invoice_id) {
                Some(ContractError::InvoiceNotFound)
            } else {
                v.status.spec_pending_error()
            };
            match refusal {
                Some(e) => {
                    &&& r == Err::<(), ContractError>(e)
                    &&& final(env)@ == (if s.is_paused() || !s.has_invoice(invoice_id) {
                        s
                    } else {
                        EnvView { calls: s.calls.push(HostCall::RequireAuth(from)), ..s }
                    })
                },
                None => {
                    &&& r == Ok::<(), ContractError>(())
                    &&& final(env)@ == (EnvView {
                        persistent: PersistentView {
                            invoices: s.persistent.invoices.insert(
                                invoice_id,
                                Invoice { freelancer: to, ..v },
                            ),
                            submitter_invoices: s.persistent.submitter_invoices.insert(
                                from,
                                left,
                            ).insert(
                                to,
                                if to == from {
                                    left.push(invoice_id)
                                } else {
                                    s.submitter_ids(to).push(invoice_id)
                                },
                            ),
                            ..s.persistent
                        },
                        calls: s.calls + seq![
                            HostCall::RequireAuth(from),
                            ttl(DataKey::Invoice(invoice_id)),
                            ttl(DataKey::SubmitterInvoices(from)),
                            ttl(DataKey::SubmitterInvoices(to)),
                            HostCall::Publish(
                                Event::InvoiceTransferred(
                                    InvoiceTransferred {
                                        invoice_id,
                                        old_freelancer: from,
                                        new_freelancer: to,
                                        status: InvoiceStatus::Pending,
                                    },
                                ),
                            ),
                        ],
                        ..s
                    })
                },
            }
        }),
{
    let s = old(env)@;
    law_without_keeps_the_order(
        s.submitter_ids(s.persistent.invoices[invoice_id].freelancer),
        invoice_id,
    );
}

/// Cancelling is for the freelancer, until the invoice is funded in full. It changes the
/// status and nothing else in storage; whoever has funded a part gets their refund.
pub proof fn law_cancel_invoice(
    env: &mut Env,
    invoice_id: u64,
    r: Result<(), ContractError>,
)
    requires
        call_ensures(InvoiceLiquidityContract::cancel_invoice, (env, invoice_id), r),
        old(env)@.persistent.invoices[invoice_id].id == invoice_id,
    ensures
        ({
            let s = old(env)@;
            let v = s.persistent.invoices[invoice_id];
            let list = s.funders(invoice_id);
            let refunds = if v.status == InvoiceStatus::PartiallyFunded {
                Seq::new(
                    list.len(),
                    |i: int|
                        HostCall::Transfer {
                            token: v.token,
                            from: s.contract,
                            to: list[i].0,
                            amount: (list[i].1 - basis_points(
                                list[i].1 as int,
                                v.discount_rate as int,
                            )) as i128,
                        },
                )
            } else {
                Seq::empty()
            };
            let refusal = if s.is_paused() {
                Some(ContractError::ContractPaused)
            } else if !s.has_invoice(invoice_id) {
                Some(ContractError::InvoiceNotFound)
            } else {
                v.status.spec_fundable_error()
            };
            match refusal {
                Some(e) => {
                    &&& r == Err::<(), ContractError>(e)
                    &&& final(env)@ == (if s.is_paused() || !s.has_invoice(invoice_id) {
                        s
                    } else {
                        EnvView { calls: s.calls.push(HostCall::RequireAuth(v.freelancer)), ..s }
                    })
                },
                None => {
                    &&& r == Ok::<(), ContractError>(())
                    &&& final(env)@ == (EnvView {
                        persistent: PersistentView {
                            invoices: s.persistent.invoices.insert(
                                invoice_id,
                                Invoice { status: InvoiceStatus::Cancelled, ..v },
                            ),
                            ..s.persistent
                        },
                        calls: s.calls + seq![HostCall::RequireAuth(v.freelancer)] + refunds + seq![
                            HostCall::ExtendTtl {
                                key: DataKey::Invoice(invoice_id),
                                threshold: 1_000_000,
                                extend_to: 2_000_000,
                            },
                            HostCall::Publish(
                                Event::InvoiceCancelled(
                                    InvoiceCancelled {
                                        invoice_id,
                                        freelancer: v.freelancer,
                                        status: InvoiceStatus::Cancelled,
                                    },
                                ),
                            ),
                        ],
                        ..s
                    })
                },
            }
        }),
{
    let s = old(env)@;
    let v = s.persistent.invoices[invoice_id];
    lemma_refund_row(s.funders(invoice_id), v.discount_rate as int, v.token, s.contract);
}

/// Anyone can mark an invoice as expired that waits for funding when its due date has
/// come. That changes the status and nothing else.
pub proof fn law_expire_invoice(env: &mut Env, invoice_id: u64, r: Result<(), ContractError>)
    requires
        call_ensures(InvoiceLiquidityContract::expire_invoice, (env, invoice_id), r),
        old(env)@.persistent.invoices[invoice_id].id == invoice_id,
    ensures
        ({
            let s = old(env)@;
            let v = s.persistent.invoices[invoice_id];
            let refusal = if !s.has_invoice(invoice_id) {
                Some(ContractError::InvoiceNotFound)
            } else if s.ledger.timestamp < v.due_date {
                Some(ContractError::NotYetDefaulted)
            } else {
                v.status.spec_pending_error()
            };
            match refusal {
                Some(e) => r == Err::<(), ContractError>(e) && final(env)@ == s,
                None => {
                    &&& r == Ok::<(), ContractError>(())
                    &&& final(env)@ == (EnvView {
                        persistent: PersistentView {
                            invoices: s.persistent.invoices.insert(
                                invoice_id,
                                Invoice { status: InvoiceStatus::Expired, ..v },
                            ),
                            ..s.persistent
                        },
                        calls: s.calls.push(
                            HostCall::ExtendTtl {
                                key: DataKey::Invoice(invoice_id),
                                threshold: 1_000_000,
                                extend_to: 2_000_000,
                            },
                        ),
                        ..s
                    })
                },
            }
        }),
{
}

// ----------------------------------------------------------------
// Funding
// ----------------------------------------------------------------

/// Joining the queue of an invoice is for anyone who is not on it, while it can be funded
/// and the queue is not resolved. The request goes last, with the score of that moment.
pub proof fn law_join_fund_queue(
    env: &mut Env,
    lp: Address,
    invoice_id: u64,
    r: Result<(), ContractError>,
)
    requires
        call_ensures(InvoiceLiquidityContract::join_fund_queue, (env, lp, invoice_id), r),
    ensures
        ({
            let s = old(env)@;
            let queue = s.fund_queue(invoice_id);
            let score = s.lp_score(lp);
            let status = s.persistent.invoices[invoice_id].status;
            let refusal = if !s.has_invoice(invoice_id) {
                Some(ContractError::InvoiceNotFound)
            } else if s.persistent.queue_resolutions.contains_key(invoice_id) {
                Some(ContractError::NotApprovedFunder)
            } else if status.spec_fundable_error() is Some {
                status.spec_fundable_error()
            } else if exists|i: int| 0 <= i < queue.len() && (#[trigger] queue[i]).lp == lp {
                Some(ContractError::AlreadyInQueue)
            } else {
                None
            };
            match refusal {
                Some(e) => {
                    &&& r == Err::<(), ContractError>(e)
                    &&& final(env)@ == (EnvView {
                        calls: s.calls.push(HostCall::RequireAuth(lp)),
                        ..s
                    })
                },
                None => {
                    &&& r == Ok::<(), ContractError>(())
                    &&& final(env)@ == (EnvView {
                        persistent: PersistentView {
                            fund_queues: s.persistent.fund_queues.insert(
                                invoice_id,
                                queue.push(LpFundRequest { lp, score }),
                            ),
                            ..s.persistent
                        },
                        calls: s.calls + seq![
                            HostCall::RequireAuth(lp),
                            HostCall::Publish(
                                Event::FundRequested(FundRequested { invoice_id, lp, score }),
                            ),
                        ],
                        ..s
                    })
                },
            }
        }),
{
}

/// Resolving the queue gives it to the request with the highest score, of several to the
/// first, puts that on record and announces it. A queue that is resolved answers the
/// same again; an empty one cannot be resolved.
pub proof fn law_resolve_fund_queue(
    env: &mut Env,
    invoice_id: u64,
    r: Result<Address, ContractError>,
    i: int,
)
    requires
        call_ensures(InvoiceLiquidityContract::resolve_fund_queue, (env, invoice_id), r),
        ({
            let queue = old(env)@.fund_queue(invoice_id);
            queue.len() > 0 ==> {
                &&& 0 <= i < queue.len()
                &&& forall|j: int|
                    0 <= j < queue.len() ==> (#[trigger] queue[j]).score <= queue[i].score
                &&& forall|j: int| 0 <= j < i ==> (#[trigger] queue[j]).score < queue[i].score
            }
        }),
    ensures
        ({
            let s = old(env)@;
            let queue = s.fund_queue(invoice_id);
            if !s.has_invoice(invoice_id) {
                r == Err::<Address, ContractError>(ContractError::InvoiceNotFound) && final(env)@
                    == s
            } else if s.persistent.queue_resolutions.contains_key(invoice_id) {
                r == Ok::<Address, ContractError>(s.persistent.queue_resolutions[invoice_id])
                    && final(env)@ == s
            } else if queue.len() == 0 {
                r == Err::<Address, ContractError>(ContractError::NotFunded) && final(env)@ == s
            } else {
                &&& r == Ok::<Address, ContractError>(queue[i].lp)
                &&& final(env)@ == (EnvView {
                    persistent: PersistentView {
                        queue_resolutions: s.persistent.queue_resolutions.insert(
                            invoice_id,
                            queue[i].lp,
                        ),
                        ..s.persistent
                    },
                    calls: s.calls.push(
                        HostCall::Publish(
                            Event::FundQueueResolved(
                                FundQueueResolved {
                                    invoice_id,
                                    approved_lp: queue[i].lp,
                                    score: queue[i].score,
                                },
                            ),
                        ),
                    ),
                    ..s
                })
            }
        }),
{
    let queue = old(env)@.fund_queue(invoice_id);
    if queue.len() > 0 {
        law_highest_score_wins_the_queue(queue);
        let b = best_request(queue);
        if b < i {
            assert(queue[b].score < queue[i].score);
        } else if i < b {
            assert(queue[i].score < queue[b].score);
        }
    }
}

/// What funding is answered: the first of these that applies. The contract is paused;
/// there is no such invoice; the queue went to somebody else; the token is not on the
/// allowlist; the payer's score is below what is asked for; the due date of an unfunded
/// invoice has come, which marks it as expired; the status admits no funding; the
/// contribution is more than what is missing.
pub proof fn law_funding_is_answered(
    env: &mut Env,
    funder: Address,
    invoice_id: u64,
    amount: i128,
    r: Result<(), ContractError>,
)
    requires
        call_ensures(
            InvoiceLiquidityContract::fund_invoice,
            (env, funder, invoice_id, amount),
            r,
        ),
        old(env)@.persistent.invoices[invoice_id].id == invoice_id,
    ensures
        ({
            let s = old(env)@;
            let v = s.persistent.invoices[invoice_id];
            let lapsed = v.status == InvoiceStatus::Pending && s.ledger.timestamp >= v.due_date;
            let early = if s.is_paused() {
                Some(ContractError::ContractPaused)
            } else if !s.has_invoice(invoice_id) {
                Some(ContractError::InvoiceNotFound)
            } else if s.persistent.queue_resolutions.contains_key(invoice_id)
                && s.persistent.queue_resolutions[invoice_id] != funder {
                Some(ContractError::NotApprovedFunder)
            } else if !s.approved(v.token) {
                Some(ContractError::Unauthorized)
            } else if s.payer_score(v.payer) < s.min_payer_reputation() {
                Some(ContractError::PayerReputationTooLow)
            } else {
                None
            };
            let refusal = if early is Some {
                early
            } else if lapsed {
                Some(ContractError::InvoiceExpired)
            } else if v.status.spec_fundable_error() is Some {
                v.status.spec_fundable_error()
            } else if v.amount_funded + amount > v.amount {
                Some(ContractError::OverfundingRejected)
            } else {
                None
            };
            &&& r == (match refusal {
                Some(e) => Err::<(), ContractError>(e),
                None => Ok(()),
            })
            &&& r is Err ==> final(env)@ == (if s.is_paused() {
                s
            } else if early is None && lapsed {
                EnvView {
                    persistent: PersistentView {
                        invoices: s.persistent.invoices.insert(
                            invoice_id,
                            Invoice { status: InvoiceStatus::Expired, ..v },
                        ),
                        ..s.persistent
                    },
                    calls: s.calls + seq![
                        HostCall::RequireAuth(funder),
                        HostCall::ExtendTtl {
                            key: DataKey::Invoice(invoice_id),
                            threshold: 1_000_000,
                            extend_to: 2_000_000,
                        },
                    ],
                    ..s
                }
            } else {
                EnvView { calls: s.calls.push(HostCall::RequireAuth(funder)), ..s }
            })
        }),
{
}

/// What a contribution that is accepted changes in storage. It is added to what the
/// funder has put in before, or goes last on the list. The invoice counts it, and becomes
/// funded with the one that completes it, by that funder and at that time. Their score
/// rises by a point, up to a hundred, with a contribution that completes the funding, and
/// so does the number of funded invoices. The invoice is on their list once, and the
/// amount counts as volume of the token.
pub proof fn law_fund_invoice(
    env: &mut Env,
    funder: Address,
    invoice_id: u64,
    amount: i128,
    r: Result<(), ContractError>,
)
    requires
        call_ensures(
            InvoiceLiquidityContract::fund_invoice,
            (env, funder, invoice_id, amount),
            r,
        ),
        r is Ok,
        old(env)@.persistent.invoices[invoice_id].id == invoice_id,
        old(env)@.lp_score(funder) < u32::MAX,
    ensures
        ({
            let s = old(env)@;
            let t = final(env)@;
            let q = s.persistent;
            let v = q.invoices[invoice_id];
            let full = v.amount_funded + amount == v.amount;
            let list = s.funders(invoice_id);
            let tokens = s.token_list();
            let plus = |sum: Option<i128>|
                Some(
                    ((match sum {
                        Some(n) => n,
                        None => 0,
                    }) + amount) as i128,
                );
            &&& t == (EnvView {
                persistent: PersistentView {
                    invoices: q.invoices.insert(
                        invoice_id,
                        Invoice {
                            amount_funded: (v.amount_funded + amount) as i128,
                            status: if full {
                                InvoiceStatus::Funded
                            } else {
                                InvoiceStatus::PartiallyFunded
                            },
                            funded_at: if full {
                                Some(s.ledger.timestamp as u32)
                            } else {
                                v.funded_at
                            },
                            funder: if full {
                                Some(funder)
                            } else {
                                v.funder
                            },
                            ..v
                        },
                    ),
                    invoice_funders: q.invoice_funders.insert(
                        invoice_id,
                        t.persistent.invoice_funders[invoice_id],
                    ),
                    lp_scores: if full {
                        q.lp_scores.insert(
                            funder,
                            (if s.lp_score(funder) < 100 {
                                s.lp_score(funder) + 1
                            } else {
                                100
                            }) as u32,
                        )
                    } else {
                        q.lp_scores
                    },
                    lp_invoices: if s.lp_ids(funder).contains(invoice_id) {
                        q.lp_invoices
                    } else {
                        q.lp_invoices.insert(funder, s.lp_ids(funder).push(invoice_id))
                    },
                    total_funded: if full {
                        Some((s.total_funded() + 1) as u64)
                    } else {
                        q.total_funded
                    },
                    token_volumes: q.token_volumes.insert(
                        v.token,
                        (s.token_volume(v.token) + amount) as i128,
                    ),
                    total_volume_usdc: if tokens.len() > 0 && v.token == tokens[0] {
                        plus(q.total_volume_usdc)
                    } else {
                        q.total_volume_usdc
                    },
                    total_volume_eurc: if tokens.len() > 1 && v.token == tokens[1] && !s.is_xlm(
                        v.token,
                    ) {
                        plus(q.total_volume_eurc)
                    } else {
                        q.total_volume_eurc
                    },
                    total_volume_xlm: if (tokens.len() > 1 && v.token == tokens[1] && s.is_xlm(
                        v.token,
                    )) || (tokens.len() > 2 && v.token == tokens[2]) {
                        plus(q.total_volume_xlm)
                    } else {
                        q.total_volume_xlm
                    },
                    ..q
                },
                calls: t.calls,
                ..s
            })
            &&& (forall|i: int| 0 <= i < list.len() ==> (#[trigger] list[i]).0 != funder)
                ==> t.persistent.invoice_funders[invoice_id] == list.push((funder, amount))
            &&& forall|p: int|
                0 <= p < list.len() && (#[trigger] list[p]).0 == funder && (forall|j: int|
                    0 <= j < p ==> (#[trigger] list[j]).0 != funder)
                    ==> t.persistent.invoice_funders[invoice_id] == list.update(
                    p,
                    (funder, (list[p].1 + amount) as i128),
                )
        }),
{
    let s = old(env)@;
    let t = final(env)@;
    let list = s.funders(invoice_id);
    law_contributors_have_an_entry(list, funder);
    assert forall|p: int|
        0 <= p < list.len() && (#[trigger] list[p]).0 == funder && (forall|j: int|
            0 <= j < p ==> (#[trigger] list[j]).0 != funder) implies first_entry(list, funder)
        == p by {
        lemma_first_entry(list, funder, p);
    }
}

/// The host calls of a contribution that is accepted, in order: the funder is asked, the
/// money moves, entries are kept alive, the distribution contract is told the amount,
/// where there is one, and the contribution is announced, with the discount over the
/// whole days to the due date as a yearly rate.
pub proof fn law_funding_is_announced(
    env: &mut Env,
    funder: Address,
    invoice_id: u64,
    amount: i128,
    r: Result<(), ContractError>,
)
    requires
        call_ensures(
            InvoiceLiquidityContract::fund_invoice,
            (env, funder, invoice_id, amount),
            r,
        ),
        r is Ok,
        old(env)@.persistent.invoices[invoice_id].id == invoice_id,
    ensures
        ({
            let s = old(env)@;
            let v = s.persistent.invoices[invoice_id];
            let full = v.amount_funded + amount == v.amount;
            let rate = v.discount_rate as int;
            let now = s.ledger.timestamp;
            let ttl = |key: DataKey|
                HostCall::ExtendTtl { key, threshold: 1_000_000, extend_to: 2_000_000 };
            let days: int = if v.due_date > now {
                (v.due_date - now) / 86_400
            } else {
                0
            };
            let paid_in = HostCall::Transfer {
                token: v.token,
                from: funder,
                to: s.contract,
                amount: (amount - basis_points(amount as int, rate)) as i128,
            };
            let paid_out = HostCall::Transfer {
                token: v.token,
                from: s.contract,
                to: v.freelancer,
                amount: (v.amount - basis_points(v.amount as int, rate)) as i128,
            };
            let funded_at = if full {
                Some(now as u32)
            } else {
                v.funded_at
            };
            final(env)@.calls == s.calls + seq![HostCall::RequireAuth(funder)] + (if full {
                seq![paid_in, paid_out]
            } else {
                seq![paid_in]
            }) + (seq![ttl(DataKey::Invoice(invoice_id))] + (if s.lp_ids(funder).contains(
                invoice_id,
            ) {
                Seq::empty()
            } else {
                seq![ttl(DataKey::LpInvoices(funder))]
            }) + (match s.instance.distribution_contract {
                Some(contract) => seq![HostCall::AccrueLp { contract, lp: funder, amount }],
                None => Seq::empty(),
            }) + seq![
                HostCall::Publish(
                    Event::InvoiceFunded(
                        InvoiceFunded {
                            invoice_id,
                            funder,
                            freelancer: v.freelancer,
                            payer: v.payer,
                            token: v.token,
                            fund_amount: amount,
                            amount_funded: (v.amount_funded + amount) as i128,
                            invoice_amount: v.amount,
                            due_date: v.due_date as u64,
                            discount_rate: v.discount_rate,
                            funded_at: match funded_at {
                                Some(at) => Some(at as u64),
                                None => None,
                            },
                            status: if full {
                                InvoiceStatus::Funded
                            } else {
                                InvoiceStatus::PartiallyFunded
                            },
                            lp: funder,
                            effective_yield_bps: (rate * days / 365) as u32,
                            timestamp: now,
                        },
                    ),
                ),
            ])
        }),
{
    lemma_funded_calls(old(env)@, funder, invoice_id, amount);
}

} // verus!

//! How invoices end, said of the operations themselves: settlement, default, appeal and
//! dispute. What each answers to which request, and what it leaves behind.

use crate::host::{Address, Hash32};
use crate::invoice_liquidity::contract::InvoiceLiquidityContract;
use crate::invoice_liquidity::env::{Env, EnvView, HostCall, PersistentView};
use crate::invoice_liquidity::errors::ContractError;
use crate::invoice_liquidity::events::{
    AppealResolved, DefaultAppealed, DisputeResolved, Event, InvoiceDefaulted, InvoiceDisputed,
    InvoicePaid, InvoicePartiallyPaid,
};
use crate::invoice_liquidity::flows::{
    basis_points, lemma_basis_points, lemma_payout_row, lemma_portion, lemma_refund_row,
    lemma_settled_calls, moves_something, portion,
};
use crate::invoice_liquidity::invoice::{
    AppealRecord, DisputeRecord, Invoice, InvoiceStatus, ReputationScore,
};
use crate::invoice_liquidity::laws::{books_sound, lemma_entry_of_total};
use crate::invoice_liquidity::money::{
    law_refunds_are_what_is_announced, lemma_share_bound, sum_transferred,
};
use crate::invoice_liquidity::settlement::settlement_pot;
use crate::invoice_liquidity::storage::DataKey;
use vstd::prelude::*;

verus! {

/// What keeping the entry of an invoice alive asks of the host.
pub open spec fn invoice_ttl(id: u64) -> HostCall {
    HostCall::ExtendTtl {
        key: DataKey::Invoice(id),
        threshold: 1_000_000,
        extend_to: 2_000_000,
    }
}

/// What giving every funder of an invoice their contribution less its discount asks of
/// the host.
pub open spec fn refund_row(s: EnvView, id: u64) -> Seq<HostCall> {
    let v = s.persistent.invoices[id];
    let rate = v.discount_rate as int;
    let list = s.funders(id);
    Seq::new(
        list.len(),
        |i: int|
            HostCall::Transfer {
                token: v.token,
                from: s.contract,
                to: list[i].0,
                amount: (list[i].1 - basis_points(list[i].1 as int, rate)) as i128,
            },
    )
}

// ----------------------------------------------------------------
// Settlement
// ----------------------------------------------------------------

/// What a payment is answered: the first of these that applies. The contract is paused;
/// the payment is not positive; there is no such invoice; its status admits no payment;
/// the payment is more than what is missing; nobody has funded it. The payer of an
/// invoice that exists is asked; nothing else happens.
pub proof fn law_payments_are_answered(
    env: &mut Env,
    invoice_id: u64,
    amount: i128,
    r: Result<(), ContractError>,
)
    requires
        call_ensures(InvoiceLiquidityContract::mark_paid, (env, invoice_id, amount), r),
    ensures
        ({
            let s = old(env)@;
            let v = s.persistent.invoices[invoice_id];
            &&& r == (if s.is_paused() {
                Err::<(), ContractError>(ContractError::ContractPaused)
            } else if amount <= 0 {
                Err(ContractError::InvalidAmount)
            } else if !s.has_invoice(invoice_id) {
                Err(ContractError::InvoiceNotFound)
            } else if v.status.spec_funded_error() is Some {
                Err(v.status.spec_funded_error()->0)
            } else if v.amount_paid + amount > v.amount {
                Err(ContractError::OverpaymentRejected)
            } else if s.funders(invoice_id).len() == 0 {
                Err(ContractError::NotFunded)
            } else {
                Ok(())
            })
            &&& r is Err ==> final(env)@ == (if s.is_paused() || amount <= 0 || !s.has_invoice(
                invoice_id,
            ) {
                s
            } else {
                EnvView { calls: s.calls.push(HostCall::RequireAuth(v.payer)), ..s }
            })
        }),
{
}

/// A payment that leaves something to pay is taken and counted, and nothing else
/// happens: the status stays, nobody is paid, and what is missing is announced.
pub proof fn law_partial_payments_are_counted(
    env: &mut Env,
    invoice_id: u64,
    amount: i128,
    r: Result<(), ContractError>,
)
    requires
        call_ensures(InvoiceLiquidityContract::mark_paid, (env, invoice_id, amount), r),
        r is Ok,
        old(env)@.persistent.invoices[invoice_id].id == invoice_id,
        old(env)@.persistent.invoices[invoice_id].amount_paid + amount
            < old(env)@.persistent.invoices[invoice_id].amount,
        old(env)@.persistent.invoices[invoice_id].amount_paid >= 0,
    ensures
        ({
            let s = old(env)@;
            let v = s.persistent.invoices[invoice_id];
            let sum = (v.amount_paid + amount) as i128;
            final(env)@ == (EnvView {
                persistent: PersistentView {
                    invoices: s.persistent.invoices.insert(
                        invoice_id,
                        Invoice { amount_paid: sum, ..v },
                    ),
                    ..s.persistent
                },
                calls: s.calls + seq![
                    HostCall::RequireAuth(v.payer),
                    HostCall::Transfer { token: v.token, from: v.payer, to: s.contract, amount },
                    invoice_ttl(invoice_id),
                    HostCall::Publish(
                        Event::InvoicePartiallyPaid(
                            InvoicePartiallyPaid {
                                invoice_id,
                                payer: v.payer,
                                amount_paid_now: amount,
                                total_amount_paid: sum,
                                remaining_amount: (v.amount - sum) as i128,
                            },
                        ),
                    ),
                ],
                ..s
            })
        }),
{
}

/// What the payment that settles an invoice changes in storage: the invoice is paid, in
/// full, one more invoice is, and the score that the payer has at that moment rises by a
/// point, up to a hundred.
pub proof fn law_settlement_is_recorded(
    env: &mut Env,
    invoice_id: u64,
    amount: i128,
    r: Result<(), ContractError>,
)
    requires
        call_ensures(InvoiceLiquidityContract::mark_paid, (env, invoice_id, amount), r),
        r is Ok,
        old(env)@.persistent.invoices[invoice_id].id == invoice_id,
        old(env)@.persistent.invoices[invoice_id].amount_paid + amount
            >= old(env)@.persistent.invoices[invoice_id].amount,
        old(env)@.payer_score(old(env)@.persistent.invoices[invoice_id].payer) < u32::MAX,
    ensures
        ({
            let s = old(env)@;
            let v = s.persistent.invoices[invoice_id];
            let score = s.payer_score(v.payer);
            final(env)@ == (EnvView {
                persistent: PersistentView {
                    invoices: s.persistent.invoices.insert(
                        invoice_id,
                        Invoice { amount_paid: v.amount, status: InvoiceStatus::Paid, ..v },
                    ),
                    total_paid: Some((s.total_paid() + 1) as u64),
                    payer_scores: s.persistent.payer_scores.insert(
                        v.payer,
                        ReputationScore {
                            score: (if score < 100 {
                                score + 1
                            } else {
                                100
                            }) as u32,
                            last_activity_ledger: s.ledger.sequence,
                        },
                    ),
                    ..s.persistent
                },
                calls: final(env)@.calls,
                ..s
            })
        }),
{
}

/// The host calls of a settlement, in order: the payer is asked and pays, the fee and
/// the portions go out, the entry is kept alive, the distribution contract is told
/// whether the payment came in time, where there is one, and the settlement is
/// announced, with what the first funder gets and earns.
pub proof fn law_settlement_is_announced(
    env: &mut Env,
    invoice_id: u64,
    amount: i128,
    r: Result<(), ContractError>,
)
    requires
        call_ensures(InvoiceLiquidityContract::mark_paid, (env, invoice_id, amount), r),
        r is Ok,
        books_sound(old(env)@),
        old(env)@.persistent.invoices[invoice_id].amount_paid + amount
            >= old(env)@.persistent.invoices[invoice_id].amount,
    ensures
        ({
            let s = old(env)@;
            let v = s.persistent.invoices[invoice_id];
            let list = s.funders(invoice_id);
            let on_time = s.ledger.timestamp <= v.due_date;
            let fee = basis_points(
                v.amount as int,
                match s.instance.fee_rate {
                    Some(rate) => rate as int,
                    None => 0,
                },
            );
            // A fee above the whole makes a loss of the first funder's share.
            let loss = (v.amount - fee) * list[0].1;
            let first = if fee <= v.amount {
                portion(v.amount - fee, list[0].1 as int, v.amount as int)
            } else if loss < i128::MIN {
                0
            } else {
                -(-loss / (v.amount as int))
            };
            final(env)@.calls == s.calls + seq![HostCall::RequireAuth(v.payer)] + (seq![
                HostCall::Transfer { token: v.token, from: v.payer, to: s.contract, amount },
            ] + (if fee > 0 {
                seq![
                    HostCall::Transfer {
                        token: v.token,
                        from: s.contract,
                        to: s.instance.admin->0,
                        amount: fee as i128,
                    },
                ]
            } else {
                Seq::empty()
            }) + Seq::new(
                list.len(),
                |j: int|
                    HostCall::Transfer {
                        token: v.token,
                        from: s.contract,
                        to: list[j].0,
                        amount: portion(v.amount - fee, list[j].1 as int, v.amount as int) as i128,
                    },
            ).filter(|call: HostCall| moves_something(call))) + (seq![invoice_ttl(invoice_id)] + (
            match s.instance.distribution_contract {
                Some(contract) => seq![
                    HostCall::AccrueSettlement {
                        contract,
                        freelancer: v.freelancer,
                        payer: v.payer,
                        on_time,
                    },
                ],
                None => Seq::empty(),
            }) + seq![
                HostCall::Publish(
                    Event::InvoicePaid(
                        InvoicePaid {
                            invoice_id,
                            payer: v.payer,
                            lp: list[0].0,
                            freelancer: v.freelancer,
                            token: v.token,
                            amount_paid: v.amount,
                            lp_earned: (first - list[0].1) as i128,
                            lp_payout: first as i128,
                            settlement_timestamp: s.ledger.timestamp,
                            paid_on_time: on_time,
                            status: InvoiceStatus::Paid,
                        },
                    ),
                ),
            ])
        }),
{
    let s = old(env)@;
    let v = s.persistent.invoices[invoice_id];
    let list = s.funders(invoice_id);
    assert(s.has_invoice(invoice_id));
    lemma_settled_calls(s, invoice_id, amount);
    let pot = settlement_pot(s, invoice_id);
    lemma_payout_row(list, pot, v.amount as int, v.token, s.contract);
    lemma_entry_of_total(list, 0);
    lemma_portion(pot, list[0].1 as int, v.amount as int);
    if pot >= 0 {
        lemma_share_bound(pot, list[0].1 as int, v.amount as int);
    } else {
        assert(pot * list[0].1 <= 0) by (nonlinear_arith)
            requires
                pot < 0,
                list[0].1 >= 0,
        ;
    }
}

/// What a claim of yield is answered. It is about the provider who completed the
/// funding, who is asked: once the invoice is paid the yield is the discount, before that
/// it is nothing, and an invoice that ended otherwise has none.
pub proof fn law_claim_yield(env: &mut Env, invoice_id: u64, r: Result<i128, ContractError>)
    requires
        call_ensures(InvoiceLiquidityContract::claim_yield, (env, invoice_id), r),
    ensures
        ({
            let s = old(env)@;
            let v = s.persistent.invoices[invoice_id];
            let list = s.funders(invoice_id);
            &&& r == (if !s.has_invoice(invoice_id) {
                Err::<i128, ContractError>(ContractError::InvoiceNotFound)
            } else if v.funder is None {
                Err(ContractError::NothingToClaim)
            } else if forall|i: int|
                0 <= i < list.len() ==> (#[trigger] list[i]).0 != v.funder->0 {
                Err(ContractError::Unauthorized)
            } else if v.status == InvoiceStatus::Paid {
                Ok(basis_points(v.amount as int, v.discount_rate as int) as i128)
            } else if v.status.spec_closed_error() is Some {
                Err(v.status.spec_closed_error()->0)
            } else {
                Ok(0)
            })
            &&& final(env)@ == (if s.has_invoice(invoice_id) && v.funder is Some {
                EnvView { calls: s.calls.push(HostCall::RequireAuth(v.funder->0)), ..s }
            } else {
                s
            })
        }),
{
    let v = old(env)@.persistent.invoices[invoice_id];
    lemma_basis_points(v.amount as int, v.discount_rate as int);
}

// ----------------------------------------------------------------
// Default and appeal
// ----------------------------------------------------------------

/// A claim of default is for those who have funded the invoice, from its due date on,
/// while it is funded in full and not settled. It gives every funder their refund, marks
/// the invoice as defaulted, puts the score that the payer has at that moment on record,
/// and takes five points from it, as far as there are any; none is stored above a hundred.
pub proof fn law_claim_default(
    env: &mut Env,
    funder: Address,
    invoice_id: u64,
    r: Result<(), ContractError>,
)
    requires
        call_ensures(InvoiceLiquidityContract::claim_default, (env, funder, invoice_id), r),
        old(env)@.persistent.invoices[invoice_id].id == invoice_id,
    ensures
        ({
            let s = old(env)@;
            let v = s.persistent.invoices[invoice_id];
            let list = s.funders(invoice_id);
            let score = s.payer_score(v.payer);
            let refusal = if s.is_paused() {
                Some(ContractError::ContractPaused)
            } else if !s.has_invoice(invoice_id) {
                Some(ContractError::InvoiceNotFound)
            } else if forall|i: int| 0 <= i < list.len() ==> (#[trigger] list[i]).0 != funder {
                Some(ContractError::Unauthorized)
            } else if s.ledger.timestamp < v.due_date {
                Some(ContractError::NotYetDefaulted)
            } else {
                v.status.spec_funded_error()
            };
            match refusal {
                Some(e) => {
                    &&& r == Err::<(), ContractError>(e)
                    &&& final(env)@ == (if s.is_paused() {
                        s
                    } else {
                        EnvView { calls: s.calls.push(HostCall::RequireAuth(funder)), ..s }
                    })
                },
                None => {
                    &&& r == Ok::<(), ContractError>(())
                    &&& final(env)@ == (EnvView {
                        persistent: PersistentView {
                            invoices: s.persistent.invoices.insert(
                                invoice_id,
                                Invoice { status: InvoiceStatus::Defaulted, ..v },
                            ),
                            pre_default_payer_scores: s.persistent.pre_default_payer_scores.insert(
                                invoice_id,
                                score,
                            ),
                            payer_scores: s.persistent.payer_scores.insert(
                                v.payer,
                                ReputationScore {
                                    score: (if score > 105 {
                                        100
                                    } else if score > 5 {
                                        score - 5
                                    } else {
                                        0
                                    }) as u32,
                                    last_activity_ledger: s.ledger.sequence,
                                },
                            ),
                            ..s.persistent
                        },
                        calls: s.calls + seq![HostCall::RequireAuth(funder)] + refund_row(
                            s,
                            invoice_id,
                        ) + seq![
                            invoice_ttl(invoice_id),
                            HostCall::Publish(
                                Event::InvoiceDefaulted(
                                    InvoiceDefaulted {
                                        invoice_id,
                                        funder,
                                        freelancer: v.freelancer,
                                        payer: v.payer,
                                        token: v.token,
                                        amount: v.amount,
                                        due_date: v.due_date as u64,
                                        defaulted_at: s.ledger.timestamp,
                                        discount_amount: sum_transferred(
                                            refund_row(s, invoice_id),
                                        ) as i128,
                                        status: InvoiceStatus::Defaulted,
                                    },
                                ),
                            ),
                        ],
                        ..s
                    })
                },
            }
        }),
{
    let s = old(env)@;
    let v = s.persistent.invoices[invoice_id];
    let list = s.funders(invoice_id);
    lemma_refund_row(list, v.discount_rate as int, v.token, s.contract);
    law_refunds_are_what_is_announced(list, v.discount_rate as int, v.token, s.contract);
}

/// An appeal is for the payer of a defaulted invoice, once, within thirty days of the due
/// date. It marks the invoice as appealed and keeps the evidence, the time, and the score
/// from before the default, or the present one where none is on record.
pub proof fn law_appeal_default(
    env: &mut Env,
    invoice_id: u64,
    evidence_hash: Hash32,
    r: Result<(), ContractError>,
)
    requires
        call_ensures(
            InvoiceLiquidityContract::appeal_default,
            (env, invoice_id, evidence_hash),
            r,
        ),
        old(env)@.persistent.invoices[invoice_id].id == invoice_id,
    ensures
        ({
            let s = old(env)@;
            let v = s.persistent.invoices[invoice_id];
            let now = s.ledger.timestamp;
            let scores = s.persistent.pre_default_payer_scores;
            let before = if scores.contains_key(invoice_id) {
                scores[invoice_id]
            } else {
                s.payer_score(v.payer)
            };
            let refusal = if !s.has_invoice(invoice_id) {
                Some(ContractError::InvoiceNotFound)
            } else if s.persistent.appeals.contains_key(invoice_id) {
                Some(ContractError::AlreadyAppealed)
            } else if v.status != InvoiceStatus::Defaulted {
                Some(ContractError::NotDefaulted)
            } else if now > v.due_date + 30 * 24 * 60 * 60 {
                Some(ContractError::AppealWindowClosed)
            } else {
                None
            };
            match refusal {
                Some(e) => {
                    &&& r == Err::<(), ContractError>(e)
                    &&& final(env)@ == (if s.has_invoice(invoice_id) {
                        EnvView { calls: s.calls.push(HostCall::RequireAuth(v.payer)), ..s }
                    } else {
                        s
                    })
                },
                None => {
                    &&& r == Ok::<(), ContractError>(())
                    &&& final(env)@ == (EnvView {
                        persistent: PersistentView {
                            invoices: s.persistent.invoices.insert(
                                invoice_id,
                                Invoice { status: InvoiceStatus::Appealed, ..v },
                            ),
                            appeals: s.persistent.appeals.insert(
                                invoice_id,
                                AppealRecord {
                                    evidence_hash,
                                    appealed_at: now as u32,
                                    pre_default_score: before,
                                },
                            ),
                            ..s.persistent
                        },
                        calls: s.calls + seq![
                            HostCall::RequireAuth(v.payer),
                            invoice_ttl(invoice_id),
                            HostCall::Publish(
                                Event::DefaultAppealed(
                                    DefaultAppealed {
                                        invoice_id,
                                        payer: v.payer,
                                        evidence_hash,
                                        appealed_at: now,
                                    },
                                ),
                            ),
                        ],
                        ..s
                    })
                },
            }
        }),
{
}

/// The admin resolves an appeal. The invoice is defaulted again either way; an appeal
/// that is upheld gives the payer the score on record back, at most a hundred, and one
/// that is rejected leaves the score as it is.
pub proof fn law_resolve_appeal(
    env: &mut Env,
    invoice_id: u64,
    upheld: bool,
    r: Result<(), ContractError>,
)
    requires
        call_ensures(InvoiceLiquidityContract::resolve_appeal, (env, invoice_id, upheld), r),
        old(env)@.persistent.invoices[invoice_id].id == invoice_id,
    ensures
        ({
            let s = old(env)@;
            let v = s.persistent.invoices[invoice_id];
            let score = s.persistent.appeals[invoice_id].pre_default_score;
            let refusal = if s.instance.admin is None {
                Some(ContractError::Unauthorized)
            } else if !s.has_invoice(invoice_id) {
                Some(ContractError::InvoiceNotFound)
            } else if v.status != InvoiceStatus::Appealed {
                Some(ContractError::NotDefaulted)
            } else if !s.persistent.appeals.contains_key(invoice_id) {
                Some(ContractError::InvoiceNotFound)
            } else {
                None
            };
            match refusal {
                Some(e) => {
                    &&& r == Err::<(), ContractError>(e)
                    &&& final(env)@ == (match s.instance.admin {
                        Some(admin) => EnvView {
                            calls: s.calls.push(HostCall::RequireAuth(admin)),
                            ..s
                        },
                        None => s,
                    })
                },
                None => {
                    &&& r == Ok::<(), ContractError>(())
                    &&& final(env)@ == (EnvView {
                        persistent: PersistentView {
                            invoices: s.persistent.invoices.insert(
                                invoice_id,
                                Invoice { status: InvoiceStatus::Defaulted, ..v },
                            ),
                            payer_scores: if upheld {
                                s.persistent.payer_scores.insert(
                                    v.payer,
                                    ReputationScore {
                                        score: if score < 100 {
                                            score
                                        } else {
                                            100
                                        },
                                        last_activity_ledger: s.ledger.sequence,
                                    },
                                )
                            } else {
                                s.persistent.payer_scores
                            },
                            ..s.persistent
                        },
                        calls: s.calls + seq![
                            HostCall::RequireAuth(s.instance.admin->0),
                            invoice_ttl(invoice_id),
                            HostCall::Publish(
                                Event::AppealResolved(
                                    AppealResolved {
                                        invoice_id,
                                        payer: v.payer,
                                        upheld,
                                        resolved_at: s.ledger.timestamp,
                                    },
                                ),
                            ),
                        ],
                        ..s
                    })
                },
            }
        }),
{
}

// ----------------------------------------------------------------
// Dispute
// ----------------------------------------------------------------

/// A dispute is for the payer of an invoice that is not over, once. It marks the invoice
/// as disputed and keeps the reason and the ledger.
pub proof fn law_dispute_invoice(
    env: &mut Env,
    invoice_id: u64,
    reason_hash: Hash32,
    r: Result<(), ContractError>,
)
    requires
        call_ensures(
            InvoiceLiquidityContract::dispute_invoice,
            (env, invoice_id, reason_hash),
            r,
        ),
        old(env)@.persistent.invoices[invoice_id].id == invoice_id,
    ensures
        ({
            let s = old(env)@;
            let v = s.persistent.invoices[invoice_id];
            let refusal = if s.is_paused() {
                Some(ContractError::ContractPaused)
            } else if !s.has_invoice(invoice_id) {
                Some(ContractError::InvoiceNotFound)
            } else if s.persistent.disputes.contains_key(invoice_id) || v.status
                == InvoiceStatus::Disputed {
                Some(ContractError::AlreadyDisputed)
            } else {
                v.status.spec_closed_error()
            };
            match refusal {
                Some(e) => {
                    &&& r == Err::<(), ContractError>(e)
                    &&& final(env)@ == (if s.is_paused() || !s.has_invoice(invoice_id) {
                        s
                    } else {
                        EnvView { calls: s.calls.push(HostCall::RequireAuth(v.payer)), ..s }
                    })
                },
                None => {
                    &&& r == Ok::<(), ContractError>(())
                    &&& final(env)@ == (EnvView {
                        persistent: PersistentView {
                            invoices: s.persistent.invoices.insert(
                                invoice_id,
                                Invoice { status: InvoiceStatus::Disputed, ..v },
                            ),
                            disputes: s.persistent.disputes.insert(
                                invoice_id,
                                DisputeRecord { reason_hash, disputed_at: s.ledger.sequence },
                            ),
                            ..s.persistent
                        },
                        calls: s.calls + seq![
                            HostCall::RequireAuth(v.payer),
                            invoice_ttl(invoice_id),
                            HostCall::Publish(
                                Event::InvoiceDisputed(
                                    InvoiceDisputed {
                                        invoice_id,
                                        payer: v.payer,
                                        reason_hash,
                                        disputed_at: s.ledger.timestamp,
                                    },
                                ),
                            ),
                        ],
                        ..s
                    })
                },
            }
        }),
{
}

/// The admin resolves a dispute: 1 upholds it, which cancels the invoice and gives every
/// funder their refund, 2 rejects it, which gives the invoice the status that its funding
/// says, and anything else is refused.
pub proof fn law_resolve_dispute(
    env: &mut Env,
    invoice_id: u64,
    resolution_hash: Hash32,
    resolution: u32,
    r: Result<(), ContractError>,
)
    requires
        call_ensures(
            InvoiceLiquidityContract::resolve_dispute,
            (env, invoice_id, resolution_hash, resolution),
            r,
        ),
        old(env)@.persistent.invoices[invoice_id].id == invoice_id,
    ensures
        ({
            let s = old(env)@;
            let v = s.persistent.invoices[invoice_id];
            let refusal = if s.instance.admin is None {
                Some(ContractError::Unauthorized)
            } else if !s.has_invoice(invoice_id) {
                Some(ContractError::InvoiceNotFound)
            } else if v.status != InvoiceStatus::Disputed {
                Some(ContractError::NotDisputed)
            } else if resolution != 1 && resolution != 2 {
                Some(ContractError::Unauthorized)
            } else {
                None
            };
            match refusal {
                Some(e) => {
                    &&& r == Err::<(), ContractError>(e)
                    &&& final(env)@ == (match s.instance.admin {
                        Some(admin) => EnvView {
                            calls: s.calls.push(HostCall::RequireAuth(admin)),
                            ..s
                        },
                        None => s,
                    })
                },
                None => {
                    &&& r == Ok::<(), ContractError>(())
                    &&& final(env)@ == (EnvView {
                        persistent: PersistentView {
                            invoices: s.persistent.invoices.insert(
                                invoice_id,
                                Invoice {
                                    status: if resolution == 1 {
                                        InvoiceStatus::Cancelled
                                    } else if v.amount_funded == v.amount {
                                        InvoiceStatus::Funded
                                    } else if v.amount_funded > 0 {
                                        InvoiceStatus::PartiallyFunded
                                    } else {
                                        InvoiceStatus::Pending
                                    },
                                    ..v
                                },
                            ),
                            ..s.persistent
                        },
                        calls: s.calls + seq![HostCall::RequireAuth(s.instance.admin->0)] + (
                        if resolution == 1 {
                            refund_row(s, invoice_id)
                        } else {
                            Seq::empty()
                        }) + seq![
                            invoice_ttl(invoice_id),
                            HostCall::Publish(
                                Event::DisputeResolved(
                                    DisputeResolved {
                                        invoice_id,
                                        resolution_hash,
                                        resolution,
                                        resolved_at: s.ledger.timestamp,
                                    },
                                ),
                            ),
                        ],
                        ..s
                    })
                },
            }
        }),
{
    let s = old(env)@;
    let v = s.persistent.invoices[invoice_id];
    lemma_refund_row(s.funders(invoice_id), v.discount_rate as int, v.token, s.contract);
}

/// A dispute that nobody has resolved in the configured time can be ended by anyone. It
/// counts as rejected: the invoice gets the status that its funding says, and nobody is
/// asked or paid.
pub proof fn law_auto_resolve_dispute(
    env: &mut Env,
    invoice_id: u64,
    r: Result<(), ContractError>,
)
    requires
        call_ensures(InvoiceLiquidityContract::auto_resolve_dispute, (env, invoice_id), r),
        old(env)@.persistent.invoices[invoice_id].id == invoice_id,
    ensures
        ({
            let s = old(env)@;
            let v = s.persistent.invoices[invoice_id];
            let refusal = if !s.has_invoice(invoice_id) {
                Some(ContractError::InvoiceNotFound)
            } else if v.status != InvoiceStatus::Disputed {
                Some(ContractError::NotDisputed)
            } else if !s.persistent.disputes.contains_key(invoice_id) {
                Some(ContractError::InvoiceNotFound)
            } else if s.instance.config is None || s.ledger.sequence
                < s.persistent.disputes[invoice_id].disputed_at
                + s.instance.config->0.dispute_timeout_ledgers {
                Some(ContractError::Unauthorized)
            } else {
                None
            };
            match refusal {
                Some(e) => r == Err::<(), ContractError>(e) && final(env)@ == s,
                None => {
                    &&& r == Ok::<(), ContractError>(())
                    &&& final(env)@ == (EnvView {
                        persistent: PersistentView {
                            invoices: s.persistent.invoices.insert(
                                invoice_id,
                                Invoice {
                                    status: if v.amount_funded == v.amount {
                                        InvoiceStatus::Funded
                                    } else if v.amount_funded > 0 {
                                        InvoiceStatus::PartiallyFunded
                                    } else {
                                        InvoiceStatus::Pending
                                    },
                                    ..v
                                },
                            ),
                            ..s.persistent
                        },
                        calls: s.calls + seq![
                            invoice_ttl(invoice_id),
                            HostCall::Publish(
                                Event::DisputeResolved(
                                    DisputeResolved {
                                        invoice_id,
                                        resolution_hash: Hash32 { hi: 0, lo: 0 },
                                        resolution: 2,
                                        resolved_at: s.ledger.timestamp,
                                    },
                                ),
                            ),
                        ],
                        ..s
                    })
                },
            }
        }),
{
}

} // verus!

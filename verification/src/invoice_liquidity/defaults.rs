//! Invoices that are funded and not settled: default, and appeal against it.

use crate::host::{Address, Hash32};
use crate::invoice_liquidity::access::{require_admin, require_lp, require_payer_by_id};
use crate::invoice_liquidity::contract::{InvoiceLiquidityContract, APPEAL_WINDOW_SECONDS};
use crate::invoice_liquidity::contributions::{
    contributes, find_entry, law_contributors_have_an_entry, refund_all, refund_calls,
    refund_total, refunds_add_up, sum_of_refunds,
};
use crate::invoice_liquidity::env::{Env, EnvView, PersistentView};
use crate::invoice_liquidity::errors::ContractError;
use crate::invoice_liquidity::events::{
    AppealResolved, DefaultAppealed, Event, InvoiceDefaulted,
};
use crate::invoice_liquidity::invoice::{
    get_appeal, get_invoice_funders, get_payer_score, get_pre_default_payer_score, invoice_exists,
    is_paused, load_invoice, save_appeal, save_invoice, save_pre_default_payer_score,
    set_payer_score, AppealRecord, Invoice, InvoiceStatus,
};
use crate::invoice_liquidity::model::{entry, or_default};
use vstd::prelude::*;

verus! {

/// Why a claim of default is refused, if it is.
pub open spec fn default_refusal(s: EnvView, funder: Address, id: u64) -> Option<ContractError> {
    if s.is_paused() {
        Some(ContractError::ContractPaused)
    } else if !s.has_invoice(id) {
        Some(ContractError::InvoiceNotFound)
    } else if !contributes(s.funders(id), funder) {
        Some(ContractError::Unauthorized)
    } else if s.ledger.timestamp < s.invoice(id).due_date {
        Some(ContractError::NotYetDefaulted)
    } else {
        s.invoice(id).status.spec_funded_error()
    }
}

/// A score after the penalty for a default: five points, as far as there are any.
pub open spec fn penalized(score: int) -> int {
    if score > 5 {
        score - 5
    } else {
        0
    }
}

/// The event that announces a default.
pub open spec fn defaulted_event(s: EnvView, funder: Address, id: u64) -> Event {
    let invoice = s.invoice(id);
    Event::InvoiceDefaulted(
        InvoiceDefaulted {
            invoice_id: invoice.id,
            funder,
            freelancer: invoice.freelancer,
            payer: invoice.payer,
            token: invoice.token,
            amount: invoice.amount,
            due_date: invoice.due_date as u64,
            defaulted_at: s.ledger.timestamp,
            discount_amount: refund_total(s.funders(id), invoice.discount_rate as int) as i128,
            status: InvoiceStatus::Defaulted,
        },
    )
}

/// The invocation after the payer's present score was put on record and the
/// penalty applied.
pub open spec fn payer_penalized(s: EnvView, id: u64, payer: Address) -> EnvView {
    let score = s.payer_score(payer);
    s.with_persistent(
        PersistentView {
            pre_default_payer_scores: s.persistent.pre_default_payer_scores.insert(id, score),
            ..s.persistent
        },
    ).payer_scored(payer, penalized(score as int))
}

/// The invocation after a default was claimed: the funders get back what they
/// paid, and the payer's score falls.
pub open spec fn defaulted(s: EnvView, funder: Address, id: u64) -> EnvView {
    let invoice = s.invoice(id);
    payer_penalized(
        s.authorized(funder).called_all(
            refund_calls(
                s.funders(id),
                invoice.discount_rate as int,
                invoice.token,
                s.contract,
            ),
        ).invoice_saved(Invoice { status: InvoiceStatus::Defaulted, ..invoice }),
        id,
        invoice.payer,
    ).published(defaulted_event(s, funder, id))
}

/// Why an appeal is refused, if it is.
pub open spec fn appeal_refusal(s: EnvView, id: u64) -> Option<ContractError> {
    if !s.has_invoice(id) {
        Some(ContractError::InvoiceNotFound)
    } else if s.appeal(id) is Some {
        Some(ContractError::AlreadyAppealed)
    } else if s.invoice(id).status != InvoiceStatus::Defaulted {
        Some(ContractError::NotDefaulted)
    } else if s.ledger.timestamp > s.invoice(id).due_date + APPEAL_WINDOW_SECONDS {
        Some(ContractError::AppealWindowClosed)
    } else {
        None
    }
}

/// The score that an appeal is about: the one on record from before the default,
/// or the present one where none is.
pub open spec fn score_before_default(s: EnvView, id: u64) -> u32 {
    or_default(
        entry(s.persistent.pre_default_payer_scores, id),
        s.payer_score(s.invoice(id).payer),
    )
}

/// The invocation after an appeal was filed.
pub open spec fn appealed(s: EnvView, id: u64, evidence_hash: Hash32) -> EnvView {
    let invoice = s.invoice(id);
    s.authorized(invoice.payer).with_persistent(
        PersistentView {
            appeals: s.persistent.appeals.insert(
                id,
                AppealRecord {
                    evidence_hash,
                    appealed_at: s.ledger.timestamp as u32,
                    pre_default_score: score_before_default(s, id),
                },
            ),
            ..s.persistent
        },
    ).invoice_saved(Invoice { status: InvoiceStatus::Appealed, ..invoice }).published(
        Event::DefaultAppealed(
            DefaultAppealed {
                invoice_id: id,
                payer: invoice.payer,
                evidence_hash,
                appealed_at: s.ledger.timestamp,
            },
        ),
    )
}

/// Why the resolution of an appeal is refused, if it is.
pub open spec fn appeal_resolution_refusal(s: EnvView, id: u64) -> Option<ContractError> {
    if s.instance.admin is None {
        Some(ContractError::Unauthorized)
    } else if !s.has_invoice(id) {
        Some(ContractError::InvoiceNotFound)
    } else if s.invoice(id).status != InvoiceStatus::Appealed {
        Some(ContractError::NotDefaulted)
    } else if s.appeal(id) is None {
        Some(ContractError::InvoiceNotFound)
    } else {
        None
    }
}

/// The invocation after an appeal was resolved. The invoice is defaulted either
/// way; an appeal that is upheld gives the payer the old score back.
pub open spec fn appeal_resolved(s: EnvView, id: u64, upheld: bool) -> EnvView {
    let invoice = s.invoice(id);
    let asked = s.authorized(s.instance.admin->0);
    let restored = if upheld {
        asked.payer_scored(invoice.payer, s.appeal(id)->0.pre_default_score as int)
    } else {
        asked
    };
    restored.invoice_saved(Invoice { status: InvoiceStatus::Defaulted, ..invoice }).published(
        Event::AppealResolved(
            AppealResolved {
                invoice_id: id,
                payer: invoice.payer,
                upheld,
                resolved_at: s.ledger.timestamp,
            },
        ),
    )
}

impl InvoiceLiquidityContract {
    /// Declares an invoice that is past its due date defaulted. Access: LP only,
    /// one who has funded the invoice.
    pub fn claim_default(env: &mut Env, funder: Address, invoice_id: u64) -> (r: Result<
        (),
        ContractError,
    >)
        requires
            default_refusal(old(env)@, funder, invoice_id) is None ==> refunds_add_up(
                old(env)@.funders(invoice_id),
                old(env)@.invoice(invoice_id).discount_rate as int,
            ),
        ensures
            match default_refusal(old(env)@, funder, invoice_id) {
                Some(e) => r == Err::<(), ContractError>(e) && final(env)@ == (if old(
                    env)@.is_paused() {
                    old(env)@
                } else {
                    old(env)@.authorized(funder)
                }),
                None => r == Ok::<(), ContractError>(()) && final(env)@ == defaulted(
                    old(env)@,
                    funder,
                    invoice_id,
                ),
            },
    {
        if is_paused(env) {
            return Err(ContractError::ContractPaused);
        }
        require_lp(env, &funder)?;
        if !invoice_exists(env, invoice_id) {
            return Err(ContractError::InvoiceNotFound);
        }
        let mut invoice: Invoice = load_invoice(env, invoice_id);
        let funders: Vec<(Address, i128)> = get_invoice_funders(env, invoice_id);
        proof {
            law_contributors_have_an_entry(funders@, funder);
        }
        if find_entry(&funders, &funder) == funders.len() {
            return Err(ContractError::Unauthorized);
        }
        let now: u64 = env.ledger.timestamp;
        if now < invoice.due_date as u64 {
            return Err(ContractError::NotYetDefaulted);
        }
        if let Some(e) = invoice.status.funded_error() {
            return Err(e);
        }
        refund_all(env, &funders, invoice.discount_rate, invoice.token);
        let total_refunded: i128 = sum_of_refunds(&funders, invoice.discount_rate);
        invoice.status = InvoiceStatus::Defaulted;
        save_invoice(env, &invoice);
        // The score before the penalty is kept for an appeal.
        let current_score: u32 = get_payer_score(env, &invoice.payer);
        save_pre_default_payer_score(env, invoice_id, current_score);
        if current_score > 5 {
            set_payer_score(env, &invoice.payer, current_score - 5);
        } else {
            set_payer_score(env, &invoice.payer, 0);
        }
        env.publish_event(
            Event::InvoiceDefaulted(
                InvoiceDefaulted {
                    invoice_id: invoice.id,
                    funder,
                    freelancer: invoice.freelancer,
                    payer: invoice.payer,
                    token: invoice.token,
                    amount: invoice.amount,
                    due_date: invoice.due_date as u64,
                    defaulted_at: now,
                    discount_amount: total_refunded,
                    status: invoice.status,
                },
            ),
        );
        Ok(())
    }

    /// Files an appeal against a default. Access: payer only.
    pub fn appeal_default(env: &mut Env, invoice_id: u64, evidence_hash: Hash32) -> (r: Result<
        (),
        ContractError,
    >)
        requires
            appeal_refusal(old(env)@, invoice_id) is None ==> old(env)@.ledger.timestamp
                <= u32::MAX,
        ensures
            match appeal_refusal(old(env)@, invoice_id) {
                Some(e) => r == Err::<(), ContractError>(e) && final(env)@ == (if old(
                    env)@.has_invoice(invoice_id) {
                    old(env)@.authorized(old(env)@.invoice(invoice_id).payer)
                } else {
                    old(env)@
                }),
                None => r == Ok::<(), ContractError>(()) && final(env)@ == appealed(
                    old(env)@,
                    invoice_id,
                    evidence_hash,
                ),
            },
    {
        if !invoice_exists(env, invoice_id) {
            return Err(ContractError::InvoiceNotFound);
        }
        let mut invoice: Invoice = load_invoice(env, invoice_id);
        require_payer_by_id(env, invoice_id)?;
        // An appealed invoice is no longer in default, so this comes first.
        if get_appeal(env, invoice_id).is_some() {
            return Err(ContractError::AlreadyAppealed);
        }
        if invoice.status != InvoiceStatus::Defaulted {
            return Err(ContractError::NotDefaulted);
        }
        let now: u64 = env.ledger.timestamp;
        if now > invoice.due_date as u64 + APPEAL_WINDOW_SECONDS {
            return Err(ContractError::AppealWindowClosed);
        }
        let pre_default_score: u32 = match get_pre_default_payer_score(env, invoice_id) {
            Some(score) => score,
            None => get_payer_score(env, &invoice.payer),
        };
        save_appeal(
            env,
            invoice_id,
            &AppealRecord { evidence_hash, appealed_at: now as u32, pre_default_score },
        );
        invoice.status = InvoiceStatus::Appealed;
        save_invoice(env, &invoice);
        env.publish_event(
            Event::DefaultAppealed(
                DefaultAppealed {
                    invoice_id,
                    payer: invoice.payer,
                    evidence_hash,
                    appealed_at: now,
                },
            ),
        );
        Ok(())
    }

    /// Resolves an appeal: the invoice goes back to default, and where the appeal
    /// is upheld the payer's score goes back to what it was. Access: admin only.
    pub fn resolve_appeal(env: &mut Env, invoice_id: u64, upheld: bool) -> (r: Result<
        (),
        ContractError,
    >)
        ensures
            match appeal_resolution_refusal(old(env)@, invoice_id) {
                Some(e) => r == Err::<(), ContractError>(e) && final(env)@ == (match old(
                    env)@.instance.admin {
                    Some(admin) => old(env)@.authorized(admin),
                    None => old(env)@,
                }),
                None => r == Ok::<(), ContractError>(()) && final(env)@ == appeal_resolved(
                    old(env)@,
                    invoice_id,
                    upheld,
                ),
            },
    {
        require_admin(env)?;
        if !invoice_exists(env, invoice_id) {
            return Err(ContractError::InvoiceNotFound);
        }
        let mut invoice: Invoice = load_invoice(env, invoice_id);
        if invoice.status != InvoiceStatus::Appealed {
            return Err(ContractError::NotDefaulted);
        }
        let appeal: AppealRecord = match get_appeal(env, invoice_id) {
            Some(appeal) => appeal,
            None => return Err(ContractError::InvoiceNotFound),
        };
        let now: u64 = env.ledger.timestamp;
        if upheld {
            set_payer_score(env, &invoice.payer, appeal.pre_default_score);
        }
        invoice.status = InvoiceStatus::Defaulted;
        save_invoice(env, &invoice);
        env.publish_event(
            Event::AppealResolved(
                AppealResolved { invoice_id, payer: invoice.payer, upheld, resolved_at: now },
            ),
        );
        Ok(())
    }
}

} // verus!

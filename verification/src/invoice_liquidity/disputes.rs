//! Disputes that the payer raises before settlement.

use crate::host::{Address, Hash32};
use crate::invoice_liquidity::access::{require_admin, require_payer_by_id};
use crate::invoice_liquidity::contract::InvoiceLiquidityContract;
use crate::invoice_liquidity::contributions::{refund_all, refund_calls};
use crate::invoice_liquidity::env::{Env, EnvView, PersistentView};
use crate::invoice_liquidity::errors::ContractError;
use crate::invoice_liquidity::events::{DisputeResolved, Event, InvoiceDisputed};
use crate::invoice_liquidity::invoice::{
    get_dispute, get_invoice_funders, invoice_exists, is_paused, load_invoice, save_dispute,
    save_invoice, DisputeRecord, Invoice, InvoiceStatus,
};
use crate::invoice_liquidity::storage::get_config;
use crate::invoice_liquidity::config::Config;
use vstd::prelude::*;

verus! {

/// Why a dispute is refused, if it is.
pub open spec fn dispute_refusal(s: EnvView, id: u64) -> Option<ContractError> {
    if s.is_paused() {
        Some(ContractError::ContractPaused)
    } else if !s.has_invoice(id) {
        Some(ContractError::InvoiceNotFound)
    } else if s.dispute(id) is Some || s.invoice(id).status == InvoiceStatus::Disputed {
        Some(ContractError::AlreadyDisputed)
    } else {
        s.invoice(id).status.spec_closed_error()
    }
}

/// The invocation after an invoice was disputed.
pub open spec fn disputed(s: EnvView, id: u64, reason_hash: Hash32) -> EnvView {
    let invoice = s.invoice(id);
    s.authorized(invoice.payer).with_persistent(
        PersistentView {
            disputes: s.persistent.disputes.insert(
                id,
                DisputeRecord { reason_hash, disputed_at: s.ledger.sequence },
            ),
            ..s.persistent
        },
    ).invoice_saved(Invoice { status: InvoiceStatus::Disputed, ..invoice }).published(
        Event::InvoiceDisputed(
            InvoiceDisputed {
                invoice_id: id,
                payer: invoice.payer,
                reason_hash,
                disputed_at: s.ledger.timestamp,
            },
        ),
    )
}

/// The status that the funding of an invoice says it has.
pub open spec fn status_by_funding(invoice: Invoice) -> InvoiceStatus {
    if invoice.amount_funded == invoice.amount {
        InvoiceStatus::Funded
    } else if invoice.amount_funded > 0 {
        InvoiceStatus::PartiallyFunded
    } else {
        InvoiceStatus::Pending
    }
}

fn restored_status(invoice: &Invoice) -> (r: InvoiceStatus)
    ensures
        r == status_by_funding(*invoice),
{
    if invoice.amount_funded == invoice.amount {
        InvoiceStatus::Funded
    } else if invoice.amount_funded > 0 {
        InvoiceStatus::PartiallyFunded
    } else {
        InvoiceStatus::Pending
    }
}

/// The event that announces the end of a dispute.
pub open spec fn dispute_resolved_event(
    s: EnvView,
    id: u64,
    resolution_hash: Hash32,
    resolution: u32,
) -> Event {
    Event::DisputeResolved(
        DisputeResolved {
            invoice_id: id,
            resolution_hash,
            resolution,
            resolved_at: s.ledger.timestamp,
        },
    )
}

/// Why the resolution of a dispute is refused, if it is. A resolution other than
/// 1 (the payer is right) and 2 (the freelancer is right) is none.
pub open spec fn dispute_resolution_refusal(s: EnvView, id: u64, resolution: u32) -> Option<
    ContractError,
> {
    if s.instance.admin is None {
        Some(ContractError::Unauthorized)
    } else if !s.has_invoice(id) {
        Some(ContractError::InvoiceNotFound)
    } else if s.invoice(id).status != InvoiceStatus::Disputed {
        Some(ContractError::NotDisputed)
    } else if resolution != 1 && resolution != 2 {
        Some(ContractError::Unauthorized)
    } else {
        None
    }
}

/// The invocation after a dispute was upheld: the funders get back what they
/// paid, and the invoice is cancelled.
pub open spec fn dispute_upheld(s: EnvView, id: u64, resolution_hash: Hash32) -> EnvView {
    let invoice = s.invoice(id);
    s.authorized(s.instance.admin->0).called_all(
        refund_calls(s.funders(id), invoice.discount_rate as int, invoice.token, s.contract),
    ).invoice_saved(Invoice { status: InvoiceStatus::Cancelled, ..invoice }).published(
        dispute_resolved_event(s, id, resolution_hash, 1),
    )
}

/// The invocation after a dispute was rejected: the invoice is what its funding
/// says it is.
pub open spec fn dispute_rejected(s: EnvView, id: u64, resolution_hash: Hash32) -> EnvView {
    let invoice = s.invoice(id);
    s.invoice_saved(Invoice { status: status_by_funding(invoice), ..invoice }).published(
        dispute_resolved_event(s, id, resolution_hash, 2),
    )
}

/// Why a dispute does not end by itself, if it does not.
pub open spec fn timeout_refusal(s: EnvView, id: u64) -> Option<ContractError> {
    if !s.has_invoice(id) {
        Some(ContractError::InvoiceNotFound)
    } else if s.invoice(id).status != InvoiceStatus::Disputed {
        Some(ContractError::NotDisputed)
    } else if s.dispute(id) is None {
        Some(ContractError::InvoiceNotFound)
    } else if s.instance.config is None {
        Some(ContractError::Unauthorized)
    } else if s.ledger.sequence < s.dispute(id)->0.disputed_at
        + s.instance.config->0.dispute_timeout_ledgers {
        Some(ContractError::Unauthorized)
    } else {
        None
    }
}

/// Whether the end of the time for a dispute can be held, where it is asked for.
pub open spec fn timeout_fits(s: EnvView, id: u64) -> bool {
    s.has_invoice(id) && s.invoice(id).status == InvoiceStatus::Disputed && s.dispute(id) is Some
        && s.instance.config is Some ==> s.dispute(id)->0.disputed_at
        + s.instance.config->0.dispute_timeout_ledgers <= u64::MAX
}

impl InvoiceLiquidityContract {
    /// Disputes an invoice before it is settled. Access: payer only.
    pub fn dispute_invoice(env: &mut Env, invoice_id: u64, reason_hash: Hash32) -> (r: Result<
        (),
        ContractError,
    >)
        ensures
            match dispute_refusal(old(env)@, invoice_id) {
                Some(e) => r == Err::<(), ContractError>(e) && final(env)@ == (if old(
                    env)@.is_paused() || !old(env)@.has_invoice(invoice_id) {
                    old(env)@
                } else {
                    old(env)@.authorized(old(env)@.invoice(invoice_id).payer)
                }),
                None => r == Ok::<(), ContractError>(()) && final(env)@ == disputed(
                    old(env)@,
                    invoice_id,
                    reason_hash,
                ),
            },
    {
        if is_paused(env) {
            return Err(ContractError::ContractPaused);
        }
        if !invoice_exists(env, invoice_id) {
            return Err(ContractError::InvoiceNotFound);
        }
        let mut invoice: Invoice = load_invoice(env, invoice_id);
        require_payer_by_id(env, invoice_id)?;
        if get_dispute(env, invoice_id).is_some() {
            return Err(ContractError::AlreadyDisputed);
        }
        if invoice.status == InvoiceStatus::Disputed {
            return Err(ContractError::AlreadyDisputed);
        }
        if let Some(e) = invoice.status.closed_error() {
            return Err(e);
        }
        let now_ts: u64 = env.ledger.timestamp;
        let now_ledger: u32 = env.ledger.sequence;
        save_dispute(env, invoice_id, &DisputeRecord { reason_hash, disputed_at: now_ledger });
        invoice.status = InvoiceStatus::Disputed;
        save_invoice(env, &invoice);
        env.publish_event(
            Event::InvoiceDisputed(
                InvoiceDisputed {
                    invoice_id,
                    payer: invoice.payer,
                    reason_hash,
                    disputed_at: now_ts,
                },
            ),
        );
        Ok(())
    }

    /// Resolves a dispute: 1 = upheld (the payer is right), 2 = rejected (the
    /// freelancer is right). Access: admin only.
    pub fn resolve_dispute(
        env: &mut Env,
        invoice_id: u64,
        resolution_hash: Hash32,
        resolution: u32,
    ) -> (r: Result<(), ContractError>)
        ensures
            match dispute_resolution_refusal(old(env)@, invoice_id, resolution) {
                Some(e) => r == Err::<(), ContractError>(e) && final(env)@ == (match old(
                    env)@.instance.admin {
                    Some(admin) => old(env)@.authorized(admin),
                    None => old(env)@,
                }),
                None => r == Ok::<(), ContractError>(()) && final(env)@ == (if resolution == 1 {
                    dispute_upheld(old(env)@, invoice_id, resolution_hash)
                } else {
                    dispute_rejected(
                        old(env)@.authorized(old(env)@.instance.admin->0),
                        invoice_id,
                        resolution_hash,
                    )
                }),
            },
    {
        require_admin(env)?;
        if !invoice_exists(env, invoice_id) {
            return Err(ContractError::InvoiceNotFound);
        }
        let mut invoice: Invoice = load_invoice(env, invoice_id);
        if invoice.status != InvoiceStatus::Disputed {
            return Err(ContractError::NotDisputed);
        }
        if resolution == 1 {
            let funders: Vec<(Address, i128)> = get_invoice_funders(env, invoice_id);
            refund_all(env, &funders, invoice.discount_rate, invoice.token);
            invoice.status = InvoiceStatus::Cancelled;
        } else if resolution == 2 {
            invoice.status = restored_status(&invoice);
        } else {
            return Err(ContractError::Unauthorized);
        }
        save_invoice(env, &invoice);
        let resolved_at: u64 = env.ledger.timestamp;
        env.publish_event(
            Event::DisputeResolved(
                DisputeResolved { invoice_id, resolution_hash, resolution, resolved_at },
            ),
        );
        Ok(())
    }

    /// Ends a dispute that was not resolved in time in the freelancer's favour, so
    /// that it cannot block the invoice for ever. Access: anyone.
    pub fn auto_resolve_dispute(env: &mut Env, invoice_id: u64) -> (r: Result<(), ContractError>)
        requires
            timeout_fits(old(env)@, invoice_id),
        ensures
            match timeout_refusal(old(env)@, invoice_id) {
                Some(e) => r == Err::<(), ContractError>(e) && final(env)@ == old(env)@,
                None => r == Ok::<(), ContractError>(()) && final(env)@ == dispute_rejected(
                    old(env)@,
                    invoice_id,
                    Hash32 { hi: 0, lo: 0 },
                ),
            },
    {
        if !invoice_exists(env, invoice_id) {
            return Err(ContractError::InvoiceNotFound);
        }
        let mut invoice: Invoice = load_invoice(env, invoice_id);
        if invoice.status != InvoiceStatus::Disputed {
            return Err(ContractError::NotDisputed);
        }
        let dispute: DisputeRecord = match get_dispute(env, invoice_id) {
            Some(dispute) => dispute,
            None => return Err(ContractError::InvoiceNotFound),
        };
        let config: Config = match get_config(env) {
            Some(config) => config,
            None => return Err(ContractError::Unauthorized),
        };
        let now_ledger: u32 = env.ledger.sequence;
        if (now_ledger as u64) < dispute.disputed_at as u64 + config.dispute_timeout_ledgers {
            return Err(ContractError::Unauthorized);
        }
        invoice.status = restored_status(&invoice);
        save_invoice(env, &invoice);
        let resolved_at: u64 = env.ledger.timestamp;
        env.publish_event(
            Event::DisputeResolved(
                DisputeResolved {
                    invoice_id,
                    resolution_hash: Hash32 { hi: 0, lo: 0 },
                    resolution: 2,
                    resolved_at,
                },
            ),
        );
        Ok(())
    }
}

} // verus!

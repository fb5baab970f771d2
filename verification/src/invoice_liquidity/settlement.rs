//! The payer settles: the funders are paid out of the full amount.

use crate::host::Address;
use crate::invoice_liquidity::access::{require_lp_by_id, require_payer_by_id};
use crate::invoice_liquidity::arith::{
    in_i128, lemma_net_fits, net_of, scale, scaled, share, share_of,
};
use crate::invoice_liquidity::contract::{
    discount_rate_as_i128, is_xlm_token, normalize_usdc_amount, normalize_xlm_amount,
    notify_distribution_settlement, settlement_notified, InvoiceLiquidityContract,
};
use crate::invoice_liquidity::contributions::{contributes, pay_out_all, payout_calls};
use crate::invoice_liquidity::env::{Env, EnvView, HostCall, PersistentView};
use crate::invoice_liquidity::errors::ContractError;
use crate::invoice_liquidity::events::{Event, InvoicePaid, InvoicePartiallyPaid};
use crate::invoice_liquidity::invoice::{
    get_invoice_funders, get_payer_score, increment_total_paid, invoice_exists, is_paused,
    load_invoice, save_invoice, set_payer_score, try_load_invoice, Invoice, InvoiceStatus,
};
use crate::invoice_liquidity::model::or_default;
use vstd::prelude::*;

verus! {

/// Why a payment is refused before its amount is held against the invoice, if it
/// is.
pub open spec fn pay_gate(s: EnvView, id: u64, amount: int) -> Option<ContractError> {
    if s.is_paused() {
        Some(ContractError::ContractPaused)
    } else if amount <= 0 {
        Some(ContractError::InvalidAmount)
    } else if !s.has_invoice(id) {
        Some(ContractError::InvoiceNotFound)
    } else {
        s.invoice(id).status.spec_funded_error()
    }
}

/// Why a payment is refused, if it is.
pub open spec fn pay_refusal(s: EnvView, id: u64, amount: int) -> Option<ContractError> {
    match pay_gate(s, id, amount) {
        Some(e) => Some(e),
        None => if amount > s.invoice(id).amount - s.invoice(id).amount_paid {
            Some(ContractError::OverpaymentRejected)
        } else if s.funders(id).len() == 0 {
            Some(ContractError::NotFunded)
        } else {
            None
        },
    }
}

/// The invocation after a payment was refused: the payer of an invoice that exists
/// was asked to authorise a payment that is one.
pub open spec fn pay_refused(s: EnvView, id: u64, amount: int) -> EnvView {
    if s.is_paused() || amount <= 0 || !s.has_invoice(id) {
        s
    } else {
        s.authorized(s.invoice(id).payer)
    }
}

/// The invocation after the payer's money was taken.
pub open spec fn payment_taken(s: EnvView, id: u64, amount: i128) -> EnvView {
    s.authorized(s.invoice(id).payer).called(
        HostCall::Transfer {
            token: s.invoice(id).token,
            from: s.invoice(id).payer,
            to: s.contract,
            amount,
        },
    )
}

/// Whether `amount` settles what is left.
pub open spec fn settles(s: EnvView, id: u64, amount: int) -> bool {
    s.invoice(id).amount_paid + amount >= s.invoice(id).amount
}

/// The invocation after a payment that leaves something to pay.
pub open spec fn partially_paid(s: EnvView, id: u64, amount: i128) -> EnvView {
    let invoice = Invoice {
        amount_paid: (s.invoice(id).amount_paid + amount) as i128,
        ..s.invoice(id)
    };
    payment_taken(s, id, amount).invoice_saved(invoice).published(
        Event::InvoicePartiallyPaid(
            InvoicePartiallyPaid {
                invoice_id: invoice.id,
                payer: invoice.payer,
                amount_paid_now: amount,
                total_amount_paid: invoice.amount_paid,
                remaining_amount: (invoice.amount - invoice.amount_paid) as i128,
            },
        ),
    )
}

/// The protocol fee on the settlement of an invoice.
pub open spec fn settlement_fee(s: EnvView, id: u64) -> int {
    scaled(s.invoice(id).amount as int, or_default(s.instance.fee_rate, 0) as int)
}

/// What is left for the funders after the fee.
pub open spec fn settlement_pot(s: EnvView, id: u64) -> int {
    net_of(s.invoice(id).amount as int, or_default(s.instance.fee_rate, 0) as int)
}

/// What the first funder gets out of a settlement.
pub open spec fn first_payout(s: EnvView, id: u64) -> int {
    share_of(settlement_pot(s, id), s.funders(id)[0].1 as int, s.invoice(id).amount as int)
}

/// The invocation after the fee went to the admin, where there is a fee.
pub open spec fn fee_paid(s: EnvView, token: Address, fee: int) -> EnvView {
    if fee > 0 {
        s.called(
            HostCall::Transfer {
                token,
                from: s.contract,
                to: s.instance.admin->0,
                amount: fee as i128,
            },
        )
    } else {
        s
    }
}

/// The invocation after the money was handed out: the fee to the admin, the rest
/// to the funders in proportion.
pub open spec fn handed_out(s: EnvView, id: u64, amount: i128) -> EnvView {
    fee_paid(payment_taken(s, id, amount), s.invoice(id).token, settlement_fee(s, id)).called_all(
        payout_calls(
            s.funders(id),
            settlement_pot(s, id),
            s.invoice(id).amount as int,
            s.invoice(id).token,
            s.contract,
        ),
    )
}

/// The invocation after the number of paid invoices rose by one.
pub open spec fn payment_counted(s: EnvView) -> EnvView {
    s.with_persistent(
        PersistentView { total_paid: Some((s.total_paid() + 1) as u64), ..s.persistent },
    )
}

/// The event that announces a settlement. It names the first funder.
pub open spec fn paid_event(s: EnvView, id: u64) -> Event {
    let invoice = s.invoice(id);
    Event::InvoicePaid(
        InvoicePaid {
            invoice_id: invoice.id,
            payer: invoice.payer,
            lp: s.funders(id)[0].0,
            freelancer: invoice.freelancer,
            token: invoice.token,
            amount_paid: invoice.amount,
            lp_earned: (first_payout(s, id) - s.funders(id)[0].1) as i128,
            lp_payout: first_payout(s, id) as i128,
            settlement_timestamp: s.ledger.timestamp,
            paid_on_time: s.ledger.timestamp <= invoice.due_date,
            status: InvoiceStatus::Paid,
        },
    )
}

/// The invocation after the payment that settles an invoice.
pub open spec fn settled(s: EnvView, id: u64, amount: i128) -> EnvView {
    let invoice = Invoice {
        amount_paid: s.invoice(id).amount,
        status: InvoiceStatus::Paid,
        ..s.invoice(id)
    };
    settlement_notified(
        payment_counted(handed_out(s, id, amount).invoice_saved(invoice)),
        invoice.freelancer,
        invoice.payer,
        s.ledger.timestamp <= invoice.due_date,
    ).payer_scored(invoice.payer, s.payer_score(invoice.payer) + 1).published(paid_event(s, id))
}

/// Whether the numbers involved in a payment can be held, on the path that the
/// payment takes. A fee needs an admin to go to, and the funders have shares of a
/// positive amount.
pub open spec fn pay_fits(s: EnvView, id: u64, amount: int) -> bool {
    &&& pay_gate(s, id, amount) is None ==> in_i128(
        s.invoice(id).amount - s.invoice(id).amount_paid,
    )
    &&& pay_refusal(s, id, amount) is None && settles(s, id, amount) ==> {
        &&& s.invoice(id).amount > 0
        &&& settlement_fee(s, id) > 0 ==> s.instance.admin is Some
        &&& in_i128(first_payout(s, id) - s.funders(id)[0].1)
        &&& s.total_paid() < u64::MAX
        &&& s.payer_score(s.invoice(id).payer) < u32::MAX
    }
}

/// Why a claim of yield is refused, if it is.
pub open spec fn yield_refusal(s: EnvView, id: u64) -> Option<ContractError> {
    if !s.has_invoice(id) {
        Some(ContractError::InvoiceNotFound)
    } else if s.invoice(id).funder is None {
        Some(ContractError::NothingToClaim)
    } else if !contributes(s.funders(id), s.invoice(id).funder->0) {
        Some(ContractError::Unauthorized)
    } else if s.invoice(id).status == InvoiceStatus::Paid {
        None
    } else {
        s.invoice(id).status.spec_closed_error()
    }
}

/// The yield of an invoice: the discount once it is paid, nothing before.
pub open spec fn yield_of(invoice: Invoice) -> int {
    if invoice.status == InvoiceStatus::Paid {
        scaled(invoice.amount as int, invoice.discount_rate as int)
    } else {
        0
    }
}

impl InvoiceLiquidityContract {
    /// Takes a payment on an invoice that is funded in full. The payment that
    /// settles it pays the fee and the funders. Access: payer only.
    pub fn mark_paid(env: &mut Env, invoice_id: u64, amount: i128) -> (r: Result<
        (),
        ContractError,
    >)
        requires
            pay_fits(old(env)@, invoice_id, amount as int),
        ensures
            match pay_refusal(old(env)@, invoice_id, amount as int) {
                Some(e) => r == Err::<(), ContractError>(e) && final(env)@ == pay_refused(
                    old(env)@,
                    invoice_id,
                    amount as int,
                ),
                None => r == Ok::<(), ContractError>(()) && final(env)@ == (if settles(
                    old(env)@,
                    invoice_id,
                    amount as int,
                ) {
                    settled(old(env)@, invoice_id, amount)
                } else {
                    partially_paid(old(env)@, invoice_id, amount)
                }),
            },
    {
        if is_paused(env) {
            return Err(ContractError::ContractPaused);
        }
        if amount <= 0 {
            return Err(ContractError::InvalidAmount);
        }
        let mut invoice: Invoice = match try_load_invoice(env, invoice_id) {
            Some(invoice) => invoice,
            None => return Err(ContractError::InvoiceNotFound),
        };
        require_payer_by_id(env, invoice_id)?;
        if let Some(e) = invoice.status.funded_error() {
            return Err(e);
        }
        let remaining: i128 = invoice.amount - invoice.amount_paid;
        if amount > remaining {
            return Err(ContractError::OverpaymentRejected);
        }
        let funders: Vec<(Address, i128)> = get_invoice_funders(env, invoice_id);
        if funders.len() == 0 {
            return Err(ContractError::NotFunded);
        }
        let contract_address: Address = env.contract;
        let normalized_amount: i128 = if is_xlm_token(env, &invoice.token) {
            normalize_xlm_amount(amount)
        } else {
            normalize_usdc_amount(amount)
        };
        env.transfer(invoice.token, invoice.payer, contract_address, normalized_amount);
        invoice.amount_paid = invoice.amount_paid + amount;
        if invoice.amount_paid < invoice.amount {
            save_invoice(env, &invoice);
            env.publish_event(
                Event::InvoicePartiallyPaid(
                    InvoicePartiallyPaid {
                        invoice_id: invoice.id,
                        payer: invoice.payer,
                        amount_paid_now: amount,
                        total_amount_paid: invoice.amount_paid,
                        remaining_amount: invoice.amount - invoice.amount_paid,
                    },
                ),
            );
            return Ok(());
        }
        let fee_rate: u32 = env.instance.fee_rate.unwrap_or(0);
        let protocol_fee: i128 = scale(invoice.amount, fee_rate as i128);
        if protocol_fee > 0 {
            let admin: Address = env.instance.admin.unwrap();
            env.transfer(invoice.token, contract_address, admin, protocol_fee);
        }
        proof {
            lemma_net_fits(invoice.amount as int, fee_rate as int);
        }
        let distribute_amount: i128 = invoice.amount - protocol_fee;
        // The event names the first funder.
        let primary_lp: Address = funders[0].0;
        let primary_lp_funded: i128 = funders[0].1;
        let primary_lp_payout: i128 = share(distribute_amount, primary_lp_funded, invoice.amount);
        let lp_earned: i128 = primary_lp_payout - primary_lp_funded;
        pay_out_all(env, &funders, distribute_amount, invoice.amount, invoice.token);
        assert(env@ == handed_out(old(env)@, invoice_id, amount));
        invoice.status = InvoiceStatus::Paid;
        save_invoice(env, &invoice);
        increment_total_paid(env);
        let paid_on_time: bool = env.ledger.timestamp <= invoice.due_date as u64;
        notify_distribution_settlement(env, &invoice.freelancer, &invoice.payer, paid_on_time);
        let current_score: u32 = get_payer_score(env, &invoice.payer);
        set_payer_score(env, &invoice.payer, current_score + 1);
        let now: u64 = env.ledger.timestamp;
        env.publish_event(
            Event::InvoicePaid(
                InvoicePaid {
                    invoice_id: invoice.id,
                    payer: invoice.payer,
                    lp: primary_lp,
                    freelancer: invoice.freelancer,
                    token: invoice.token,
                    amount_paid: invoice.amount,
                    lp_earned,
                    lp_payout: primary_lp_payout,
                    settlement_timestamp: now,
                    paid_on_time,
                    status: invoice.status,
                },
            ),
        );
        Ok(())
    }

    /// The yield of the provider who completed the funding. Access: LP only.
    pub fn claim_yield(env: &mut Env, invoice_id: u64) -> (r: Result<i128, ContractError>)
        ensures
            match yield_refusal(old(env)@, invoice_id) {
                Some(e) => r == Err::<i128, ContractError>(e),
                None => r == Ok::<i128, ContractError>(
                    yield_of(old(env)@.invoice(invoice_id)) as i128,
                ),
            },
            final(env)@ == (if old(env)@.has_invoice(invoice_id) && old(env)@.invoice(
                invoice_id,
            ).funder is Some {
                old(env)@.authorized(old(env)@.invoice(invoice_id).funder->0)
            } else {
                old(env)@
            }),
    {
        if !invoice_exists(env, invoice_id) {
            return Err(ContractError::InvoiceNotFound);
        }
        let invoice: Invoice = load_invoice(env, invoice_id);
        match invoice.funder {
            Some(funder) => {
                require_lp_by_id(env, &funder, invoice_id)?;
            },
            None => return Err(ContractError::NothingToClaim),
        }
        if invoice.status == InvoiceStatus::Paid {
            return Ok(scale(invoice.amount, discount_rate_as_i128(invoice.discount_rate)));
        }
        match invoice.status.closed_error() {
            Some(e) => Err(e),
            None => Ok(0),
        }
    }
}

} // verus!

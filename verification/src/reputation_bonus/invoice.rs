//! Invoices and the counters that they move.

use crate::host::Address;
use crate::reputation_bonus::config::{get_config, Config};
use crate::reputation_bonus::env::{Env, EnvView};
use crate::reputation_bonus::errors::ContractError;
use crate::reputation_bonus::rate_logic::{calculate_effective_rate, effective_rate};
use crate::reputation_bonus::reputation::{read_reputation, write_reputation, ReputationScore};
use crate::table::Key;
use vstd::prelude::*;

verus! {

#[derive(Clone, Copy, Debug, PartialEq, Eq, Structural)]
pub enum InvoiceStatus {
    Pending,
    Funded,
    Paid,
    Defaulted,
}

#[derive(Clone, Copy, Debug, PartialEq)]
pub struct Invoice {
    pub id: u64,
    pub freelancer: Address,
    pub payer: Address,
    pub amount: i128,
    pub due_date: u64,
    pub base_discount_rate_bps: u32,
    pub effective_discount_rate_bps: u32,
    pub status: InvoiceStatus,
}

/// Names of the storage entries for invoices.
#[derive(Clone, Copy, Debug, PartialEq, Eq, Structural)]
pub enum InvoiceKey {
    Invoice(u64),
    InvoiceCount,
}

impl Key for InvoiceKey {
    fn same(&self, other: &Self) -> (r: bool) {
        *self == *other
    }
}

impl View for Invoice {
    type V = Invoice;

    open spec fn view(&self) -> Invoice {
        *self
    }
}

/// One more, unless the counter is full.
pub open spec fn one_more(n: u32) -> u32 {
    if n == u32::MAX {
        n
    } else {
        (n + 1) as u32
    }
}

impl ReputationScore {
    pub open spec fn one_submitted(self) -> ReputationScore {
        ReputationScore { invoices_submitted: one_more(self.invoices_submitted), ..self }
    }

    pub open spec fn one_paid(self) -> ReputationScore {
        ReputationScore { invoices_paid: one_more(self.invoices_paid), ..self }
    }

    pub open spec fn one_defaulted(self) -> ReputationScore {
        ReputationScore { invoices_defaulted: one_more(self.invoices_defaulted), ..self }
    }
}

impl EnvView {
    /// Highest invoice number given out so far.
    pub open spec fn invoice_count(self) -> u64 {
        match self.invoice_count {
            Some(n) => n,
            None => 0,
        }
    }

    pub open spec fn submission_counted(self, who: Address) -> EnvView {
        self.reputation_written(who, self.reputation(who).one_submitted())
    }

    pub open spec fn payment_counted(self, who: Address) -> EnvView {
        self.reputation_written(who, self.reputation(who).one_paid())
    }

    pub open spec fn default_counted(self, who: Address) -> EnvView {
        self.reputation_written(who, self.reputation(who).one_defaulted())
    }
}

/// The invoice that a submission creates.
pub open spec fn submitted_invoice(
    s: EnvView,
    freelancer: Address,
    payer: Address,
    amount: i128,
    due_date: u64,
    base: u32,
) -> Invoice {
    Invoice {
        id: (s.invoice_count() + 1) as u64,
        freelancer,
        payer,
        amount,
        due_date,
        base_discount_rate_bps: base,
        effective_discount_rate_bps: effective_rate(
            base,
            s.reputation(freelancer).score,
            s.config->0.high_rep_threshold,
            s.config->0.bonus_bps,
            s.config->0.min_discount_rate_bps,
        ),
        status: InvoiceStatus::Pending,
    }
}

/// Submits an invoice at the rate that the freelancer's score earns, and counts
/// it for both parties.
pub fn submit_invoice(
    env: &mut Env,
    freelancer: &Address,
    payer: &Address,
    amount: i128,
    due_date: u64,
    base_discount_rate_bps: u32,
) -> (r: Result<Invoice, ContractError>)
    ensures
        ({
            let s = old(env)@;
            let invoice = submitted_invoice(
                s,
                *freelancer,
                *payer,
                amount,
                due_date,
                base_discount_rate_bps,
            );
            if s.config is None {
                r == Err::<Invoice, ContractError>(ContractError::ConfigErrorUnauthorized)
                    && final(env)@ == s.authorized(*freelancer)
            } else if s.invoice_count() == u64::MAX {
                r == Err::<Invoice, ContractError>(ContractError::ArithmeticError) && final(env)@
                    == s.authorized(*freelancer)
            } else {
                r == Ok::<Invoice, ContractError>(invoice) && final(env)@ == (EnvView {
                    invoice_count: Some(invoice.id),
                    ..s
                }).authorized(*freelancer).invoice_saved(
                    invoice.id,
                    invoice,
                ).submission_counted(*freelancer).submission_counted(*payer)
            }
        }),
{
    env.require_auth(*freelancer);
    let config: Config = match get_config(env) {
        Ok(config) => config,
        Err(_) => return Err(ContractError::ConfigErrorUnauthorized),
    };
    let rep_score: ReputationScore = read_reputation(env, freelancer);
    let effective_rate_bps: u32 = match calculate_effective_rate(
        base_discount_rate_bps,
        rep_score.score,
        config.high_rep_threshold,
        config.bonus_bps,
        config.min_discount_rate_bps,
    ) {
        Ok(rate) => rate,
        Err(_) => return Err(ContractError::RateErrorArithmeticOverflow),
    };
    let count: u64 = env.invoice_count.unwrap_or(0);
    let next_id: u64 = match count.checked_add(1) {
        Some(id) => id,
        None => return Err(ContractError::ArithmeticError),
    };
    env.invoice_count = Some(next_id);
    let invoice: Invoice = Invoice {
        id: next_id,
        freelancer: *freelancer,
        payer: *payer,
        amount,
        due_date,
        base_discount_rate_bps,
        effective_discount_rate_bps: effective_rate_bps,
        status: InvoiceStatus::Pending,
    };
    env.invoices.set(InvoiceKey::Invoice(next_id), invoice);
    let mut free_rep: ReputationScore = read_reputation(env, freelancer);
    free_rep.invoices_submitted = free_rep.invoices_submitted.saturating_add(1);
    write_reputation(env, freelancer, free_rep);
    let mut payer_rep: ReputationScore = read_reputation(env, payer);
    payer_rep.invoices_submitted = payer_rep.invoices_submitted.saturating_add(1);
    write_reputation(env, payer, payer_rep);
    Ok(invoice)
}

/// Why the end of an invoice is refused, if it is: only an open invoice ends.
pub open spec fn closing_refusal(s: EnvView, id: u64) -> Option<ContractError> {
    if !s.has_invoice(id) {
        Some(ContractError::InvoiceNotFound)
    } else if s.invoice(id).status == InvoiceStatus::Paid || s.invoice(id).status
        == InvoiceStatus::Defaulted {
        Some(ContractError::IllegalState)
    } else {
        None
    }
}

/// The invocation after invoice `id` was paid.
pub open spec fn paid_off(s: EnvView, id: u64) -> EnvView {
    let invoice = s.invoice(id);
    s.authorized(invoice.payer).invoice_saved(
        id,
        Invoice { status: InvoiceStatus::Paid, ..invoice },
    ).payment_counted(invoice.payer).payment_counted(invoice.freelancer)
}

/// The invocation after invoice `id` defaulted.
pub open spec fn defaulted(s: EnvView, id: u64) -> EnvView {
    let invoice = s.invoice(id);
    s.invoice_saved(
        id,
        Invoice { status: InvoiceStatus::Defaulted, ..invoice },
    ).default_counted(invoice.payer).default_counted(invoice.freelancer)
}

/// Settles an open invoice on the authority of its payer, and counts it as paid
/// for both parties.
pub fn mark_paid(env: &mut Env, invoice_id: u64) -> (r: Result<(), ContractError>)
    ensures
        match closing_refusal(old(env)@, invoice_id) {
            Some(e) => r == Err::<(), ContractError>(e) && final(env)@ == old(env)@,
            None => r == Ok::<(), ContractError>(()) && final(env)@ == paid_off(
                old(env)@,
                invoice_id,
            ),
        },
{
    let mut invoice: Invoice = match env.invoices.get(&InvoiceKey::Invoice(invoice_id)) {
        Some(invoice) => *invoice,
        None => return Err(ContractError::InvoiceNotFound),
    };
    if invoice.status != InvoiceStatus::Pending && invoice.status != InvoiceStatus::Funded {
        return Err(ContractError::IllegalState);
    }
    env.require_auth(invoice.payer);
    invoice.status = InvoiceStatus::Paid;
    env.invoices.set(InvoiceKey::Invoice(invoice_id), invoice);
    let mut payer_rep: ReputationScore = read_reputation(env, &invoice.payer);
    payer_rep.invoices_paid = payer_rep.invoices_paid.saturating_add(1);
    write_reputation(env, &invoice.payer, payer_rep);
    let mut free_rep: ReputationScore = read_reputation(env, &invoice.freelancer);
    free_rep.invoices_paid = free_rep.invoices_paid.saturating_add(1);
    write_reputation(env, &invoice.freelancer, free_rep);
    Ok(())
}

/// Marks an open invoice as defaulted, and counts it so for both parties.
pub fn handle_default(env: &mut Env, invoice_id: u64) -> (r: Result<(), ContractError>)
    ensures
        match closing_refusal(old(env)@, invoice_id) {
            Some(e) => r == Err::<(), ContractError>(e) && final(env)@ == old(env)@,
            None => r == Ok::<(), ContractError>(()) && final(env)@ == defaulted(
                old(env)@,
                invoice_id,
            ),
        },
{
    let mut invoice: Invoice = match env.invoices.get(&InvoiceKey::Invoice(invoice_id)) {
        Some(invoice) => *invoice,
        None => return Err(ContractError::InvoiceNotFound),
    };
    if invoice.status != InvoiceStatus::Pending && invoice.status != InvoiceStatus::Funded {
        return Err(ContractError::IllegalState);
    }
    invoice.status = InvoiceStatus::Defaulted;
    env.invoices.set(InvoiceKey::Invoice(invoice_id), invoice);
    let mut payer_rep: ReputationScore = read_reputation(env, &invoice.payer);
    payer_rep.invoices_defaulted = payer_rep.invoices_defaulted.saturating_add(1);
    write_reputation(env, &invoice.payer, payer_rep);
    let mut free_rep: ReputationScore = read_reputation(env, &invoice.freelancer);
    free_rep.invoices_defaulted = free_rep.invoices_defaulted.saturating_add(1);
    write_reputation(env, &invoice.freelancer, free_rep);
    Ok(())
}

/// An invoice ends once: after it was paid or has defaulted, both ways of
/// ending it are refused.
pub proof fn law_an_invoice_ends_once(s: EnvView, id: u64)
    requires
        closing_refusal(s, id) is None,
    ensures
        closing_refusal(paid_off(s, id), id) == Some(ContractError::IllegalState),
        closing_refusal(defaulted(s, id), id) == Some(ContractError::IllegalState),
{
}

} // verus!

//! What the contract announces to the outside world.

use crate::host::{Address, Hash32};
use crate::invoice_liquidity::invoice::InvoiceStatus;
use vstd::prelude::*;

verus! {

/// Emitted when governance adds a token to the funding allowlist.
#[derive(Clone, Copy, Debug, PartialEq)]
pub struct TokenAdded {
    pub token: Address,
}

/// Emitted when governance removes a token from the funding allowlist.
#[derive(Clone, Copy, Debug, PartialEq)]
pub struct TokenRemoved {
    pub token: Address,
}

#[derive(Clone, Copy, Debug, PartialEq)]
pub struct InvoiceSubmitted {
    pub invoice_id: u64,
    pub freelancer: Address,
    pub payer: Address,
    pub token: Address,
    pub amount: i128,
    pub due_date: u64,
    pub discount_rate: u32,
    pub status: InvoiceStatus,
    /// Ledger timestamp of the submission, so that the whole invoice record can
    /// be rebuilt from events alone.
    pub timestamp: u64,
}

#[derive(Clone, Copy, Debug, PartialEq)]
pub struct InvoiceUpdated {
    pub invoice_id: u64,
    pub freelancer: Address,
    pub payer: Address,
    pub token: Address,
    pub amount: i128,
    pub due_date: u64,
    pub discount_rate: u32,
    pub status: InvoiceStatus,
}

#[derive(Clone, Copy, Debug, PartialEq)]
pub struct InvoiceFunded {
    pub invoice_id: u64,
    pub funder: Address,
    pub freelancer: Address,
    pub payer: Address,
    pub token: Address,
    pub fund_amount: i128,
    pub amount_funded: i128,
    pub invoice_amount: i128,
    pub due_date: u64,
    pub discount_rate: u32,
    pub funded_at: Option<u64>,
    pub status: InvoiceStatus,
    pub lp: Address,
    pub effective_yield_bps: u32,
    pub timestamp: u64,
}

#[derive(Clone, Copy, Debug, PartialEq)]
pub struct InvoicePaid {
    pub invoice_id: u64,
    pub payer: Address,
    pub lp: Address,
    pub freelancer: Address,
    pub token: Address,
    /// Full amount settled by the payer.
    pub amount_paid: i128,
    /// What the first funder earned: payout less contribution.
    pub lp_earned: i128,
    /// What the first funder was paid out.
    pub lp_payout: i128,
    /// Ledger timestamp of the settlement.
    pub settlement_timestamp: u64,
    pub paid_on_time: bool,
    pub status: InvoiceStatus,
}

#[derive(Clone, Copy, Debug, PartialEq)]
pub struct InvoicePartiallyPaid {
    pub invoice_id: u64,
    pub payer: Address,
    pub amount_paid_now: i128,
    pub total_amount_paid: i128,
    pub remaining_amount: i128,
}

#[derive(Clone, Copy, Debug, PartialEq)]
pub struct ContractPaused {
    pub timestamp: u64,
}

#[derive(Clone, Copy, Debug, PartialEq)]
pub struct ContractUnpaused {
    pub timestamp: u64,
}

#[derive(Clone, Copy, Debug, PartialEq)]
pub struct InvoiceDefaulted {
    pub invoice_id: u64,
    pub funder: Address,
    pub freelancer: Address,
    pub payer: Address,
    pub token: Address,
    pub amount: i128,
    pub due_date: u64,
    pub defaulted_at: u64,
    /// Sum of the refunds paid to the funders.
    pub discount_amount: i128,
    pub status: InvoiceStatus,
}

#[derive(Clone, Copy, Debug, PartialEq)]
pub struct InvoiceTransferred {
    pub invoice_id: u64,
    pub old_freelancer: Address,
    pub new_freelancer: Address,
    pub status: InvoiceStatus,
}

#[derive(Clone, Copy, Debug, PartialEq)]
pub struct InvoiceCancelled {
    pub invoice_id: u64,
    pub freelancer: Address,
    pub status: InvoiceStatus,
}

/// Emitted whenever the contract admin address is updated: a permanent trail of
/// admin transitions.
#[derive(Clone, Copy, Debug, PartialEq)]
pub struct AdminChanged {
    pub old_admin: Address,
    pub new_admin: Address,
    /// Ledger timestamp of the change.
    pub timestamp: u64,
}

/// A numeric parameter that governance controls.
#[derive(Clone, Copy, Debug, PartialEq, Eq, Structural)]
pub enum ParamName {
    ProtocolFeeRateBps,
    MaxDiscountRateBps,
    MinPayerReputation,
    HighRepThreshold,
    BonusBps,
    MinDiscountRateBps,
    DecayRateBps,
    DecayPeriodLedgers,
    DisputeTimeoutLedgers,
}

impl ParamName {
    /// The audit identifier under which changes of the parameter are published.
    pub open spec fn spec_symbol(self) -> Seq<char> {
        match self {
            ParamName::ProtocolFeeRateBps => "protocol_fee_rate_bps"@,
            ParamName::MaxDiscountRateBps => "max_discount_rate_bps"@,
            ParamName::MinPayerReputation => "min_payer_reputation"@,
            ParamName::HighRepThreshold => "high_rep_threshold"@,
            ParamName::BonusBps => "bonus_bps"@,
            ParamName::MinDiscountRateBps => "min_discount_rate_bps"@,
            ParamName::DecayRateBps => "decay_rate_bps"@,
            ParamName::DecayPeriodLedgers => "decay_period_ledgers"@,
            ParamName::DisputeTimeoutLedgers => "dispute_timeout_ledgers"@,
        }
    }

    /// The audit identifier of the parameter.
    pub fn symbol(self) -> (r: &'static str)
        ensures
            r@ == self.spec_symbol(),
    {
        match self {
            ParamName::ProtocolFeeRateBps => "protocol_fee_rate_bps",
            ParamName::MaxDiscountRateBps => "max_discount_rate_bps",
            ParamName::MinPayerReputation => "min_payer_reputation",
            ParamName::HighRepThreshold => "high_rep_threshold",
            ParamName::BonusBps => "bonus_bps",
            ParamName::MinDiscountRateBps => "min_discount_rate_bps",
            ParamName::DecayRateBps => "decay_rate_bps",
            ParamName::DecayPeriodLedgers => "decay_period_ledgers",
            ParamName::DisputeTimeoutLedgers => "dispute_timeout_ledgers",
        }
    }
}

/// Audit identifiers are unique: two parameters never share one.
pub proof fn law_param_symbols_are_unique(a: ParamName, b: ParamName)
    requires
        a.spec_symbol() == b.spec_symbol(),
    ensures
        a == b,
{
    reveal_strlit("protocol_fee_rate_bps");
    reveal_strlit("max_discount_rate_bps");
    reveal_strlit("min_payer_reputation");
    reveal_strlit("high_rep_threshold");
    reveal_strlit("bonus_bps");
    reveal_strlit("min_discount_rate_bps");
    reveal_strlit("decay_rate_bps");
    reveal_strlit("decay_period_ledgers");
    reveal_strlit("dispute_timeout_ledgers");
    // A letter, or the length, sets each pair apart.
    let (x, y) = (a.spec_symbol(), b.spec_symbol());
    assert(x.len() == y.len());
    assert(x[0] == y[0] && x[1] == y[1] && x[2] == y[2]);
}

/// Emitted whenever a governance-controlled numeric parameter changes.
#[derive(Clone, Copy, Debug, PartialEq)]
pub struct ParameterUpdated {
    pub param_name: ParamName,
    pub old_value: i128,
    pub new_value: i128,
    pub updated_by: Address,
}

#[derive(Clone, Copy, Debug, PartialEq)]
pub struct ContractUpgraded {
    pub admin: Address,
    pub new_wasm_hash: Hash32,
    pub timestamp: u64,
}

/// Emitted when a payer files an appeal against an unfair default marking.
#[derive(Clone, Copy, Debug, PartialEq)]
pub struct DefaultAppealed {
    pub invoice_id: u64,
    pub payer: Address,
    /// SHA-256 hash of off-chain evidence provided by the payer.
    pub evidence_hash: Hash32,
    pub appealed_at: u64,
}

/// Emitted when governance resolves a payer's appeal.
#[derive(Clone, Copy, Debug, PartialEq)]
pub struct AppealResolved {
    pub invoice_id: u64,
    pub payer: Address,
    /// true = appeal upheld (penalty reversed); false = appeal rejected.
    pub upheld: bool,
    pub resolved_at: u64,
}

/// Emitted when a payer disputes an invoice before settlement.
#[derive(Clone, Copy, Debug, PartialEq)]
pub struct InvoiceDisputed {
    pub invoice_id: u64,
    pub payer: Address,
    /// SHA-256 hash of off-chain dispute evidence.
    pub reason_hash: Hash32,
    pub disputed_at: u64,
}

/// Emitted when a dispute is resolved.
#[derive(Clone, Copy, Debug, PartialEq)]
pub struct DisputeResolved {
    pub invoice_id: u64,
    /// Hash of the details of the resolution.
    pub resolution_hash: Hash32,
    /// 1 = upheld (payer right), 2 = rejected (freelancer right).
    pub resolution: u32,
    pub resolved_at: u64,
}

/// Emitted when an LP registers an intent to fund in the priority queue.
#[derive(Clone, Copy, Debug, PartialEq)]
pub struct FundRequested {
    pub invoice_id: u64,
    pub lp: Address,
    /// Reputation score of the LP at the time of registration.
    pub score: u32,
}

/// Emitted when the priority queue is resolved and a winning LP is selected.
#[derive(Clone, Copy, Debug, PartialEq)]
pub struct FundQueueResolved {
    pub invoice_id: u64,
    pub approved_lp: Address,
    /// The score that secured priority.
    pub score: u32,
}

/// Any event of the contract.
#[derive(Clone, Copy, Debug, PartialEq)]
pub enum Event {
    TokenAdded(TokenAdded),
    TokenRemoved(TokenRemoved),
    InvoiceSubmitted(InvoiceSubmitted),
    InvoiceUpdated(InvoiceUpdated),
    InvoiceFunded(InvoiceFunded),
    InvoicePaid(InvoicePaid),
    InvoicePartiallyPaid(InvoicePartiallyPaid),
    ContractPaused(ContractPaused),
    ContractUnpaused(ContractUnpaused),
    InvoiceDefaulted(InvoiceDefaulted),
    InvoiceTransferred(InvoiceTransferred),
    InvoiceCancelled(InvoiceCancelled),
    AdminChanged(AdminChanged),
    ParameterUpdated(ParameterUpdated),
    ContractUpgraded(ContractUpgraded),
    DefaultAppealed(DefaultAppealed),
    AppealResolved(AppealResolved),
    InvoiceDisputed(InvoiceDisputed),
    DisputeResolved(DisputeResolved),
    FundRequested(FundRequested),
    FundQueueResolved(FundQueueResolved),
}

} // verus!

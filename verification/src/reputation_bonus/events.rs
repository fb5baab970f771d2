//! What the contract announces to the outside world.

use crate::host::Address;
use vstd::prelude::*;

verus! {

/// A numeric parameter that the admin controls.
#[derive(Clone, Copy, Debug, PartialEq, Eq, Structural)]
pub enum ParamName {
    HighRepThreshold,
    BonusBps,
    MinDiscountRateBps,
}

impl ParamName {
    /// The audit identifier of the parameter.
    pub fn symbol(self) -> (r: &'static str)
        ensures
            r@ == (match self {
                ParamName::HighRepThreshold => "high_rep_threshold"@,
                ParamName::BonusBps => "bonus_bps"@,
                ParamName::MinDiscountRateBps => "min_discount_rate_bps"@,
            }),
    {
        match self {
            ParamName::HighRepThreshold => "high_rep_threshold",
            ParamName::BonusBps => "bonus_bps",
            ParamName::MinDiscountRateBps => "min_discount_rate_bps",
        }
    }
}

/// Emitted whenever a numeric parameter changes.
#[derive(Clone, Copy, Debug, PartialEq)]
pub struct ParameterUpdated {
    pub param_name: ParamName,
    pub old_value: i128,
    pub new_value: i128,
    pub updated_by: Address,
}

/// Emitted whenever the record of an address is written.
#[derive(Clone, Copy, Debug, PartialEq)]
pub struct ReputationUpdated {
    pub address: Address,
    pub invoices_submitted: u32,
    pub invoices_paid: u32,
    pub invoices_defaulted: u32,
    pub score: u32,
}

/// Any event of the contract.
#[derive(Clone, Copy, Debug, PartialEq)]
pub enum Event {
    ParameterUpdated(ParameterUpdated),
    ReputationUpdated(ReputationUpdated),
}

} // verus!

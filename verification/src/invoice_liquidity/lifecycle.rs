//! Which statuses admit which step, and what the others are answered.

use crate::invoice_liquidity::errors::ContractError;
use crate::invoice_liquidity::invoice::InvoiceStatus;
use vstd::prelude::*;

verus! {

impl InvoiceStatus {
    /// The error of a step that needs a live invoice: neither over nor in
    /// contention.
    pub open spec fn spec_closed_error(self) -> Option<ContractError> {
        match self {
            InvoiceStatus::Pending => None,
            InvoiceStatus::PartiallyFunded => None,
            InvoiceStatus::Funded => None,
            InvoiceStatus::Paid => Some(ContractError::AlreadyPaid),
            InvoiceStatus::Defaulted => Some(ContractError::InvoiceDefaulted),
            InvoiceStatus::Appealed => Some(ContractError::InvoiceAppealed),
            InvoiceStatus::Disputed => Some(ContractError::InvoiceDisputed),
            InvoiceStatus::Expired => Some(ContractError::InvoiceExpired),
            InvoiceStatus::Cancelled => Some(ContractError::AlreadyCancelled),
        }
    }

    /// The error of a step that needs an invoice without any funding.
    pub open spec fn spec_pending_error(self) -> Option<ContractError> {
        match self {
            InvoiceStatus::PartiallyFunded | InvoiceStatus::Funded => Some(
                ContractError::AlreadyFunded,
            ),
            _ => self.spec_closed_error(),
        }
    }

    /// The error of a step that needs an invoice that is not funded in full.
    pub open spec fn spec_fundable_error(self) -> Option<ContractError> {
        match self {
            InvoiceStatus::Funded => Some(ContractError::AlreadyFunded),
            _ => self.spec_closed_error(),
        }
    }

    /// The error of a step that needs an invoice that is funded in full.
    pub open spec fn spec_funded_error(self) -> Option<ContractError> {
        match self {
            InvoiceStatus::Pending | InvoiceStatus::PartiallyFunded => Some(
                ContractError::NotFunded,
            ),
            _ => self.spec_closed_error(),
        }
    }

    pub fn closed_error(self) -> (r: Option<ContractError>)
        ensures
            r == self.spec_closed_error(),
    {
        match self {
            InvoiceStatus::Pending => None,
            InvoiceStatus::PartiallyFunded => None,
            InvoiceStatus::Funded => None,
            InvoiceStatus::Paid => Some(ContractError::AlreadyPaid),
            InvoiceStatus::Defaulted => Some(ContractError::InvoiceDefaulted),
            InvoiceStatus::Appealed => Some(ContractError::InvoiceAppealed),
            InvoiceStatus::Disputed => Some(ContractError::InvoiceDisputed),
            InvoiceStatus::Expired => Some(ContractError::InvoiceExpired),
            InvoiceStatus::Cancelled => Some(ContractError::AlreadyCancelled),
        }
    }

    pub fn pending_error(self) -> (r: Option<ContractError>)
        ensures
            r == self.spec_pending_error(),
    {
        match self {
            InvoiceStatus::PartiallyFunded => Some(ContractError::AlreadyFunded),
            InvoiceStatus::Funded => Some(ContractError::AlreadyFunded),
            _ => self.closed_error(),
        }
    }

    pub fn fundable_error(self) -> (r: Option<ContractError>)
        ensures
            r == self.spec_fundable_error(),
    {
        match self {
            InvoiceStatus::Funded => Some(ContractError::AlreadyFunded),
            _ => self.closed_error(),
        }
    }

    pub fn funded_error(self) -> (r: Option<ContractError>)
        ensures
            r == self.spec_funded_error(),
    {
        match self {
            InvoiceStatus::Pending => Some(ContractError::NotFunded),
            InvoiceStatus::PartiallyFunded => Some(ContractError::NotFunded),
            _ => self.closed_error(),
        }
    }
}

} // verus!

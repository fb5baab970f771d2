//! Reasons for which a request is refused.

use vstd::prelude::*;

verus! {

#[derive(Clone, Copy, Debug, PartialEq, Eq, PartialOrd, Ord, Structural)]
pub enum ContractError {
    AlreadyInitialized,
    Unauthorized,
    ContractPaused,
    InvoiceNotFound,
    InvalidAmount,
    InvalidDueDate,
    InvalidDiscountRate,
    DueDateTooSoon,
    DueDateTooFar,
    SelfInvoice,
    BatchTooLarge,
    AlreadyFunded,
    AlreadyPaid,
    AlreadyCancelled,
    NotFunded,
    NotYetDefaulted,
    InvoiceDefaulted,
    InvoiceExpired,
    InvoiceAppealed,
    InvoiceDisputed,
    OverfundingRejected,
    OverpaymentRejected,
    PayerReputationTooLow,
    NothingToClaim,
    NotDefaulted,
    AlreadyAppealed,
    AppealWindowClosed,
    NotDisputed,
    AlreadyDisputed,
    AlreadyInQueue,
    NotApprovedFunder,
    ArithmeticOverflow,
}

} // verus!

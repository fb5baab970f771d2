//! Reasons for which a request is refused.

use vstd::prelude::*;

verus! {

#[derive(Clone, Copy, Debug, PartialEq, Eq, PartialOrd, Ord, Structural)]
pub enum ContractError {
    ArithmeticError,
    InvoiceNotFound,
    IllegalState,
    ConfigErrorUnauthorized,
    ConfigErrorInvalidBonusBps,
    ConfigErrorInvalidMinDiscountRate,
    RateErrorArithmeticUnderflow,
    RateErrorArithmeticOverflow,
}

} // verus!

//! The plain values that every contract shares: addresses, hashes and the ledger.

use vstd::prelude::*;

verus! {

/// An account or a contract, told apart by `contract`, with its 256-bit key.
#[derive(Clone, Copy, Debug, PartialEq, Eq, Hash, Structural)]
pub struct Address {
    pub contract: bool,
    pub hi: u128,
    pub lo: u128,
}

impl View for Address {
    type V = Address;

    open spec fn view(&self) -> Address {
        *self
    }
}

/// Thirty-two bytes of a digest, big end first.
#[derive(Clone, Copy, Debug, PartialEq, Eq, Structural)]
pub struct Hash32 {
    pub hi: u128,
    pub lo: u128,
}

/// What the ledger says while a call runs.
#[derive(Clone, Copy, Debug, PartialEq, Eq, Structural)]
pub struct LedgerInfo {
    /// Close time of the ledger, in seconds.
    pub timestamp: u64,
    /// Number of the ledger.
    pub sequence: u32,
}

} // verus!

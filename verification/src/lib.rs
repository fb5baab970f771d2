//! Verified core of the Invoice Liquidity Network.
//!
//! The crate holds the rules of three on-chain contracts as plain functions on
//! plain values. [`invoice_liquidity`] is the life of an invoice from submission
//! to settlement, default or dispute; [`iln_governance`] is voting by token
//! weight with delegation; [`reputation_bonus`] grants a cheaper discount rate
//! to parties who pay.
//!
//! Every contract works on an `Env`: what it has in storage, what the ledger
//! says, and an ordered record of the calls it asks of its host (authorisations,
//! token transfers, events, calls to other contracts). The host performs those
//! calls; nothing in this crate does.

pub mod host;
pub mod iln_governance;
pub mod invoice_liquidity;
pub mod list;
pub mod reputation_bonus;
pub mod table;

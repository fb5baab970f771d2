//! Discount rates that reward a record of paid invoices.

pub mod config;
pub mod contract;
pub mod env;
pub mod errors;
pub mod events;
pub mod invoice;
pub mod laws;
pub mod operations;
pub mod rate_logic;
pub mod reputation;

pub use config::Config;
pub use contract::ReputationBonusContract;
pub use env::Env;
pub use errors::ContractError;
pub use invoice::{Invoice, InvoiceStatus};
pub use reputation::ReputationScore;

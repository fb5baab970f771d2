//! The life of an invoice: submitted, funded, settled, or gone wrong.

pub mod access;
pub mod administration;
pub mod admission;
pub mod arith;
pub mod behaviour;
pub mod config;
pub mod contract;
pub mod contributions;
pub mod defaults;
pub mod disputes;
pub mod env;
pub mod errors;
pub mod events;
pub mod flows;
pub mod funding;
pub mod invoice;
pub mod laws;
pub mod lifecycle;
pub mod limits;
pub mod model;
pub mod money;
pub mod operations;
pub mod readings;
pub mod resolutions;
pub mod runs;
pub mod settlement;
pub mod storage;
pub mod submission;

pub use config::{Config, ConfigError};
pub use contract::InvoiceLiquidityContract;
pub use env::Env;
pub use errors::ContractError;
pub use invoice::{
    AppealRecord, Invoice, InvoiceParams, InvoiceStatus, LpFundRequest, ReputationProfile,
    ReputationScore,
};
pub use storage::DataKey;

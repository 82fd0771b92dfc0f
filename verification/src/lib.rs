//! Ownership ledger and order-execution engine for fractional property
//! tokens: balances derived from a ledger of confirmed grants, a lifecycle
//! for buy/sell orders, and the derived portfolio and market views.

pub mod ledger;
pub mod market;
pub mod marketplace;
pub mod portfolio;
pub mod registry;
pub mod orders;
pub mod seq_gen;
pub mod seqtools;
pub mod types;

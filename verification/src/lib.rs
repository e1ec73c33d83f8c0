//! Client-side model of a multi-asset token contract: typed fingerprints and
//! identities, an observable ledger model, a bound contract client with
//! transactional and simulated operations, and command orchestration with
//! cost accounting and batch-mint semantics.

pub mod bech32;
pub mod client;
pub mod commands;
pub mod error;
pub mod identity;
pub mod laws;
pub mod ledger;

pub use error::Error;

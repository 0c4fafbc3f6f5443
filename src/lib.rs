//! A governance treasury: a balance ledger with a time-boxed administrator
//! mint, proposals that holders vote on with their balances, and guarded
//! execution of the instruction batch of a proposal that reached quorum.
//!
//! The host (storage, clock, caller identity, cross-module calls) stays
//! outside: each entry point takes the caller and the current time as plain
//! values and returns what the host must do next.
pub mod dao;
pub mod error;
pub mod laws;
pub mod ledger;
pub mod model;
pub mod types;

pub use dao::SecretDaoContract;
pub use error::DaoError;
pub use ledger::AssetLedger;
pub use types::{Argument, ClassifiedProposal, HiddenInstruction, SecretVote};

//! On-ledger accountability and billing protocol for relayers: service
//! operators who sell time-boxed subscriptions and are held financially
//! accountable through a report/challenge/penalty mechanism.
//!
//! The library is the protocol core. The host ledger supplies identities,
//! a monotonic timestamp and a value-transfer primitive; every operation
//! here takes the caller and the current time as plain arguments, mutates
//! the contract state atomically, and hands the resulting notifications
//! and transfer instructions back to the host as values.

pub mod account;
pub mod billing;
pub mod dispute;
pub mod duration;
pub mod errors;
pub mod events;
pub mod laws;
pub mod plans;
pub mod reports;
pub mod stakes;
pub mod state;
pub mod subscriptions;

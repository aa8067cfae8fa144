//! A persistent-counter service with a verified core.
//!
//! The crate holds the rules of a store of named counters and of the
//! three-operation service in front of it, each stated as a contract over a
//! mathematical model and proved by Verus.

pub mod counter;
pub mod database;
pub mod ids;
pub mod laws;
pub mod migration;
pub mod model;
pub mod service;
mod table;
pub mod tdd_sample;

pub use service::HelloServiceImpl;

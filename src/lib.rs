//! Persistence and domain core of a double-entry accounting ledger.
//!
//! The library models commodities, accounts, ledgers, journals, transactions and
//! reconciliation, checks the double-entry invariants before anything is stored, and
//! describes the generic entity-store contract together with the filesystem backend's
//! layout and lifecycle decisions. Reading and writing files is left to the caller.
pub mod time;
pub mod commodity;
pub mod account;
pub mod audit;
pub mod journal;
pub mod ledger;
pub mod entity;
pub mod fs;
pub mod party;
pub mod catalog;
pub mod prices;
pub mod error;
pub mod address;
pub mod configuration;
pub mod store_config;

//! Startup schema management for a local personal-finance tracker.
//!
//! The library models an embedded relational store and the migrator that
//! brings it up to date at application launch: an ordered list of versioned
//! change-sets is reconciled against the store, each change-set runs at most
//! once, and the versions already applied are tracked in a ledger that only
//! grows.  The domain schema (a `subscriptions` table with closed `type` and
//! `frequency` enumerations and defaulted columns) is provided as a built-in
//! catalog, and row insertion enforces the declared constraints and defaults.

pub mod catalog;
pub mod db;
pub mod insert;
pub mod laws;
pub mod migrate;
pub mod schema;
pub mod value;

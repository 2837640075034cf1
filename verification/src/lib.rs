//! Persistent relational state for a point-of-sale application, modelled in
//! memory and verified: a schema catalog of ordered migration steps, a version
//! ledger, a migration runner that applies pending steps idempotently, and the
//! relational domain model (users, products, orders, order items, company
//! settings) with its uniqueness, check and foreign-key constraints.

pub mod catalog;
pub mod domain;
pub mod laws;
pub mod runner;
pub mod store;

//! A multi-asset fungible-balance ledger.
//!
//! Each asset class tracks, per holder, a balance subject to a minimum-balance
//! (existential) threshold, optional freezing, delegated transfer approvals,
//! and account-lifecycle bookkeeping tied to external reference counts.
//!
//! The balance-transition engine decides whether a deposit or withdrawal is
//! admissible, computes the actual amount moved (accounting for dust and
//! best-effort semantics), and updates the ledger while preserving the global
//! invariants: supply conservation, minimum-balance enforcement, and
//! reference-count consistency.

pub mod types;
pub mod refs;
pub mod freeze;
pub mod state;
mod lemmas;
pub mod decision;
pub mod engine;
pub mod admin;
pub mod approvals;
pub mod laws;

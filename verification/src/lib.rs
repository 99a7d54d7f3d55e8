//! Reconciliation of a crowdfunding pool's remote state against a local
//! append-only payment store.
//!
//! The library decodes a fetched snapshot of campaign state, derives stable
//! deduplication identifiers, and computes the contributor and payment rows
//! that a run should upsert.

pub mod amount;
pub mod clock;
pub mod ident;
pub mod json;
pub mod reconcile;
pub mod snapshot;

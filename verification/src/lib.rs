//! A typed, versioned data model and validation/merge engine for Partially
//! Signed Bitcoin Transactions (PSBTs), covering the legacy (v0) and the
//! extended (v2) record layouts.
//!
//! A PSBT accumulates transaction-construction state across several parties:
//! a creator builds the skeleton, updaters add per-input signing material,
//! signers contribute partial signatures, a combiner merges independently
//! signed copies, a finalizer collapses each input's material into the final
//! scriptSig/witness, and an extractor reads out the finished transaction.
//!
//! The container is only usable through a two-state lifecycle: freshly
//! constructed data is *unchecked*, and every operation that presumes a
//! structurally valid PSBT is reachable only after `validate` has produced
//! the *checked* wrapper.

pub mod bytes;
pub mod kvmap;
pub mod primitives;
pub mod sourcemap;
pub mod transaction;
pub mod input;
pub mod output;
pub mod psbt;
pub mod laws;

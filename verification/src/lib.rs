//! A custody module for a single fungible reward token.
//!
//! The module mints one token whose mint authority is a deterministically
//! derived address, attaches a descriptive metadata record to it once, and
//! lets holders deposit tokens into and withdraw them from a shared vault
//! ledger whose owner is another derived address. Every operation re-derives
//! the addresses it expects and validates the caller-supplied accounts
//! against them before touching any balance.

pub mod addresses;
pub mod custody;
pub mod errors;
pub mod laws;
pub mod ledger;
pub mod metadata;

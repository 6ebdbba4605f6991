//! Ledger engines for fungible and non-fungible tokens.
//!
//! `psp22` keeps balances, allowances and the total supply of a fungible
//! token; `psp34` keeps ownership, operator approvals and enumeration lists
//! of uniquely identified tokens. Every mutating operation either returns the
//! events to publish or an error, and an error leaves the ledger unchanged.
//! Resolving the caller, publishing events and persisting state are left to
//! the host.

pub mod account;
pub mod amounts;
pub mod errors;
pub mod id;
pub mod index;
pub mod metadata;
pub mod model;
pub mod peer;
pub mod psp22;
pub mod psp34;
pub mod vec_map;

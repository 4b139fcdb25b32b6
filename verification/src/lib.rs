//! A registry of ticketed events: an administrator and a platform fee set
//! once at initialisation, event records keyed by their identifier, and for
//! each organizer the identifiers of the events they registered, in the
//! order in which they were first stored.
//!
//! Addresses and identifiers are held as plain strings (an address by its
//! textual form). [`storage::Storage`] is the contract's ledger state, and
//! [`registry::EventRegistry`] holds the contract's entry points.

pub mod types;
pub mod subscription;
mod table;
pub mod storage;
pub mod registry;
pub mod laws;

pub use types::{EventInfo, EventInfoView};
pub use subscription::SECONDS_PER_MONTH;

//! Validity rules for ports and capabilities of an inter-chain communication
//! protocol, judged over a pair of storage snapshots.
//!
//! A module binds to a named port and proves the binding with a capability,
//! an integer-indexed token. The store records both directions of a binding
//! and counts the capabilities ever issued. [`Ibc`] holds the store as it was
//! before a transaction and as it is after it, and judges each changed key:
//! [`Ibc::validate_port`] for the keys of ports, [`Ibc::validate_capability`]
//! for those of capabilities and of their counter.

pub mod capability;
pub mod codec;
pub mod decimal;
pub mod error;
pub mod identifier;
pub mod key;
pub mod path;
pub mod predicate;
pub mod storage;

pub use crate::capability::Capability;
pub use crate::error::Error;
pub use crate::identifier::PortId;
pub use crate::key::Key;
pub use crate::predicate::Ibc;
pub use crate::storage::{Snapshot, StateChange};

//! Custody tracking for uniquely identified virtual pets.
//!
//! Each pet has one owner and any number of caretakers; every caretaker's
//! last activity is timestamped in a feed ledger. Time-windowed rules decide
//! when an inactive owner forfeits custody to an active caretaker. The host
//! runtime supplies the authenticated caller, a monotonically non-decreasing
//! clock reading per operation, and a channel for the emitted events; the
//! library owns the stores and the transition rules.

pub mod custody;
pub mod laws;
pub mod ledger;
pub mod pallet;
pub mod registry;
pub mod types;

//! The replicated worker registry: its record and command types, the
//! deterministic state machine that applies commands, and worker selection.

pub mod affinity;
pub mod conflicts;
pub mod contacts;
pub mod laws;
pub mod log_store;
pub mod network;
pub mod registry;
pub mod snapshot;
pub mod state_machine;
pub mod types;

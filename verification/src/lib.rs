//! Watches a node's pending-transaction pool and block stream for
//! transactions whose simulated execution emits a known swap event.
//!
//! The crate holds the verified core of that pipeline: the base-fee
//! estimator, the trace-log detection engine, the pending-transaction
//! set, and the coordinator state machine that filters and reconciles
//! candidates. Subscriptions, RPC calls and logging live outside.

pub mod coordinator;
pub mod detect;
pub mod fee;
pub mod pending;
pub mod types;

pub use coordinator::Coordinator;
pub use detect::{extract_logs, search_in_logs};
pub use fee::calculate_next_block_base_fee;
pub use pending::PendingSet;
pub use types::{calculate_victim_gas, header_to_block, Event, NewBlock, NewPendingTx};

//! An append-only, per-aggregate event log behind a storage-agnostic contract.
//!
//! Every aggregate owns one ordered history of immutable events. Batches are
//! appended atomically, histories are read back in ascending `event_id` order,
//! and listeners learn of new events through a lossy broadcast of aggregate
//! identifiers.

pub mod append;
pub mod component;
pub mod error;
pub mod event;
pub mod log;
pub mod memory;
pub mod notification;
pub mod postgres;
pub mod row;
pub mod statement;

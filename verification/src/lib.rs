//! A small task-management library: a four-level difficulty codec for the
//! wire format of a habit-tracking service, the canonical task record, the
//! in-memory semantics of the local file backend, the priority-reordering
//! engine, and the idempotent completed-task store.
//!
//! Everything here is pure logic over plain values; the surrounding binary
//! performs file, network and database I/O and hands the results in.

pub mod codec;
pub mod config;
pub mod date;
pub mod descriptor;
pub mod error;
pub mod local;
pub mod remote;
pub mod reorder;
pub mod store;
pub mod types;
pub mod wire;

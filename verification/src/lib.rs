//! Core of a container supervisor: it watches a container engine's lifecycle
//! events and restarts containers that stop unexpectedly, keeping an in-memory
//! snapshot of each container's configuration so a lost container can be
//! rebuilt without asking the engine for state it no longer has.
//!
//! This crate holds the verified reconciliation logic only: the configuration
//! store, the restart debouncer, event classification, and the restart
//! workflow decisions. All engine I/O (listing, inspecting, creating,
//! starting containers, streaming events) is performed by the surrounding
//! program, which feeds plain values in and carries the decided actions out.
//!
//! Of the two restart strategies the system's history supports, this crate
//! implements the recreate strategy: stop, remove, recreate from the stored
//! configuration, start, verify. On success the store entry migrates
//! atomically from the old container id to the new one.
use vstd::prelude::*;

pub mod create;
pub mod debounce;
pub mod docker;
pub mod info;
pub mod keyed;
pub mod models;
pub mod monitor;
pub mod restart;
pub mod store;
pub mod strutil;

pub use docker::DockerClient;
pub use models::ContainerConfig;
pub use monitor::ContainerMonitor;
pub use restart::ContainerRestarter;


verus! {

/// Seconds after which a container's failure history is considered stale:
/// if the next stop comes later than this after the previous restart attempt,
/// the attempt counter starts over.
pub const RESTART_WINDOW_SECS: u64 = 600;

} // verus!

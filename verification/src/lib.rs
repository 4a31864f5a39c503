//! Core of a repository viewer: watches a directory tree for filesystem
//! activity, coalesces bursts of raw change events into single "repository
//! changed" signals, and replays a fixed set of long-lived command sessions
//! whenever such a signal arrives.
//!
//! The library holds the verified logic only: the debounce state machine, the
//! session records and their replay rules, the orchestration of the fixed
//! session set, the enumeration of a filesystem snapshot, and the watch
//! bookkeeping. Everything that touches the operating system — the terminal
//! widgets, process spawning, the OS change-notification facility — lives in
//! the surrounding application, which feeds this library plain values and
//! carries out the actions it returns.

pub mod debounce;
pub mod enumerate;
pub mod orchestrator;
pub mod registry;
pub mod session;

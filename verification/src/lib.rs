//! Supervision of user-declared workloads: spawned commands and externally
//! managed containers, with their status, bounded logs and change counters.
//!
//! [`manager::ProcessManager`] is the engine. It owns the table of workloads
//! and decides every change of state; it never waits. Whoever drives it
//! spawns and kills processes, reads their output and calls the container
//! runtime, and reports each outcome back. [`model`] says what every
//! operation does as a function on plain values, and [`laws`] states what
//! holds of all of them together.

pub mod config;
pub mod container;
pub mod events;
pub mod laws;
pub mod manager;
pub mod model;
pub mod notify;
pub mod resolver;
pub mod severity;
pub mod state;
pub mod text;
pub mod tokenizer;

pub use config::{AppConfig, ProcessConfig, ProcessType};
pub use manager::ProcessManager;
pub use state::{ProcessState, ProcessStatus};

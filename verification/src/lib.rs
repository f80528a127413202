//! Peak memory telemetry for a running program and the processes below it.
//!
//! The crate holds the rules of the measurement, each stated as a
//! contract and proved:
//!
//! - [`types`]: readings, process-tree snapshots, the final summary of a
//!   run, and the errors;
//! - [`tree`]: whole-tree memory and the number of processes of a snapshot;
//! - [`monitor`]: the probe that every platform offers, the process tree
//!   built from its answers, and what the answers of each platform mean;
//! - [`monitor::tracker`]: the sampling tracker, which reduces the probe's
//!   readings to running peaks, a timeline and the tree at the peak;
//! - [`baseline`]: saved summaries, and the comparison of a run against
//!   one of them;
//! - [`cli`], [`process`], [`output`], [`application`]: the settings of a
//!   run, the command it runs, what it writes out, and how it ends.
//!
//! Reading the operating system, the clock and the disk, printing, and
//! waiting on timers are left to the caller, which hands in what it read
//! and carries out what is decided here.

pub mod application;
pub mod baseline;
pub mod cli;
pub mod monitor;
pub mod output;
pub mod process;
pub mod text;
pub mod tree;
pub mod types;

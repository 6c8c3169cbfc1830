//! A concurrent process-resource sampler.
//!
//! The library launches no process and opens no file itself: it owns the
//! logic of a monitoring session — classifying the state of a target
//! process, deciding what a metric sampler does on each tick, and the
//! append-only record format of the per-metric logs — all of it verified.
//! The thin asynchronous shell that sleeps, spawns and writes lives
//! outside the library and calls into it with plain values.

pub mod cli;
pub mod command;
pub mod errors;
pub mod process;
pub mod record;
pub mod sampler;
pub mod session;

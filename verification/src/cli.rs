//! The command-line surface of the tool, as plain data.
//!
//! The library holds the bare shapes; the argument-parsing shell keeps
//! its own annotated copies and converts into these.

use vstd::prelude::*;

verus! {

/// How often a sampler gathers metrics when the caller gives no
/// interval, in milliseconds.
pub const DEFAULT_TICK_DURATION: u64 = 500;

/// Where the logs go when the caller gives no directory.
pub fn default_log_dir() -> (dir: String)
    ensures
        dir@ == "platypus_profile"@,
{
    String::from_str("platypus_profile")
}

/// The parsed invocation: exactly one subcommand.
pub struct Cli {
    pub cmd: Commands,
}

/// The tool's subcommands.
pub enum Commands {
    /// Launch a command and sample its resource usage until it exits.
    Profile {
        /// The path to the dir to output logs from the metrics gathering
        log_dir: String,
        /// How often the memory monitor should gather metrics
        tick_duration: u64,
        /// The cmd to profile
        cmd: String,
    },
    /// Visualize previously collected logs; consumes the emitted files
    /// downstream and is no part of the sampling core.
    Plot,
}

} // verus!

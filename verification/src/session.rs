//! Planning a monitoring session: the output channels and the checks
//! that must pass before any process is spawned or any file touched.
//!
//! The filesystem and the spawn themselves belong to the caller; the
//! caller reports what it sees (does the output path exist as a plain
//! file?) and this module decides: an ambiguous output path is refused
//! before the command is even looked at, and an unlaunchable command
//! is refused before any channel file is planned to be created.

use vstd::prelude::*;
use crate::command::{parse_command, split_spaces, CommandLine};
use crate::errors::SessionError;

verus! {

/// The deterministic file name of a metric's channel inside the output
/// directory: the metric's name with the `.log` suffix.
pub fn metric_log_filename(metric: &str) -> (name: String)
    ensures
        name@ == metric@ + ".log"@,
{
    let mut name = metric.to_owned();
    name.append(".log");
    name
}

/// One output channel to come: a metric's name and the file name its
/// records go to.
pub struct ChannelPlan {
    pub metric: String,
    pub file_name: String,
}

/// The channels of a session: one per tracked metric, here the two the
/// tool gathers, each with its deterministic file name.
pub fn metric_channels() -> (v: Vec<ChannelPlan>)
    ensures
        v@.len() == 2,
        v@[0].metric@ == "memory"@,
        v@[0].file_name@ == "memory.log"@,
        v@[1].metric@ == "cpu"@,
        v@[1].file_name@ == "cpu.log"@,
{
    let mut v: Vec<ChannelPlan> = Vec::new();
    let memory_name = String::from_str("memory");
    let cpu_name = String::from_str("cpu");
    let memory_file = metric_log_filename(memory_name.as_str());
    let cpu_file = metric_log_filename(cpu_name.as_str());
    proof {
        reveal_strlit("memory");
        reveal_strlit("cpu");
        reveal_strlit(".log");
        reveal_strlit("memory.log");
        reveal_strlit("cpu.log");
        assert(memory_file@ =~= "memory.log"@);
        assert(cpu_file@ =~= "cpu.log"@);
    }
    v.push(ChannelPlan { metric: memory_name, file_name: memory_file });
    v.push(ChannelPlan { metric: cpu_name, file_name: cpu_file });
    v
}

/// Everything a session needs before it starts: the command to spawn,
/// the channels to open, and the tick interval to sample at.
pub struct SessionPlan {
    pub command: CommandLine,
    pub channels: Vec<ChannelPlan>,
    pub tick_ms: u64,
}

/// Decide whether and how a session may start.
///
/// `dir_exists_as_file` is what the caller saw of the output path. The
/// plan fails with `ConfigError` exactly when that path already exists
/// as a plain file — before the command is examined, so nothing else is
/// reported first — and otherwise with `LaunchError` exactly when the
/// command's program field is empty. A successful plan carries the
/// split command, both metric channels and the tick interval unchanged,
/// and the caller spawns the target before it creates any channel file,
/// so a failed spawn leaves no partly-populated directory behind.
pub fn plan_session(dir_exists_as_file: bool, tick_ms: u64, cmd: &str) -> (r: Result<
    SessionPlan,
    SessionError,
>)
    ensures
        (r matches Err(e) && e == SessionError::ConfigError) <==> dir_exists_as_file,
        !dir_exists_as_file ==> ({
            let parts = split_spaces(cmd@);
            match r {
                Result::Ok(p) => {
                    &&& parts[0].len() > 0
                    &&& p.command.program@ == parts[0]
                    &&& p.command.args@.map_values(|t: String| t@) == parts.skip(1)
                    &&& p.tick_ms == tick_ms
                    &&& p.channels@.len() == 2
                    &&& p.channels@[0].metric@ == "memory"@
                    &&& p.channels@[0].file_name@ == "memory.log"@
                    &&& p.channels@[1].metric@ == "cpu"@
                    &&& p.channels@[1].file_name@ == "cpu.log"@
                },
                Result::Err(e) => {
                    &&& e == SessionError::LaunchError
                    &&& parts[0].len() == 0
                },
            }
        }),
{
    if dir_exists_as_file {
        return Err(SessionError::ConfigError);
    }
    let command = match parse_command(cmd) {
        Ok(c) => c,
        Err(e) => {
            return Err(e);
        },
    };
    let channels = metric_channels();
    Ok(SessionPlan { command, channels, tick_ms })
}

} // verus!

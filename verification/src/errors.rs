//! The error taxonomy of a monitoring session.

use vstd::prelude::*;

verus! {

/// Everything that can end a session other than the target process
/// terminating (which is the expected, non-error outcome).
#[derive(Clone, Copy, Debug, PartialEq, Eq, Structural)]
pub enum SessionError {
    /// The output path already exists as a non-directory file, so the
    /// destination of the logs is ambiguous. Surfaced before any process
    /// is spawned; non-retryable.
    ConfigError,
    /// The target command cannot be split into a valid program-plus-
    /// arguments form, or the operating system refuses to spawn it.
    /// Surfaced before monitoring starts; non-retryable.
    LaunchError,
    /// The process table cannot be refreshed or queried. Ends the
    /// session; never retried silently.
    ObservationError,
    /// A log line cannot be appended, or a channel cannot be flushed on
    /// shutdown. Ends the affected sampler and surfaces as the session's
    /// overall error.
    WriteError,
}

impl SessionError {
    /// A short human-readable account of the error, for the caller that
    /// reports the failure cause.
    pub fn describe(&self) -> (msg: &'static str)
        ensures
            msg@.len() > 0,
    {
        let msg = match self {
            SessionError::ConfigError => "the output path exists as a plain file",
            SessionError::LaunchError => "the target command cannot be launched",
            SessionError::ObservationError => "the process table cannot be observed",
            SessionError::WriteError => "a log line cannot be written or flushed",
        };
        proof {
            reveal_strlit("the output path exists as a plain file");
            reveal_strlit("the target command cannot be launched");
            reveal_strlit("the process table cannot be observed");
            reveal_strlit("a log line cannot be written or flushed");
        }
        msg
    }
}

} // verus!

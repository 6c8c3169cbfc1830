//! The process-table view: refreshing it, probing the target process,
//! and classifying what the probe found.
//!
//! The table itself belongs to the operating system, reached through
//! `sysinfo`; the library owns the classification. A probe is handed
//! around as plain values, so everything downstream of the outside call
//! is verified for every value a probe could take.

use vstd::prelude::*;

verus! {

/// What one refresh of the process table says about the target process.
/// Derived fresh on every refresh; never cached across ticks.
#[derive(Clone, Copy, Debug, PartialEq, Eq, Structural)]
pub enum ProcessStatus {
    /// The process is alive in the table.
    Running,
    /// The process has finished executing but has not been reaped by
    /// its parent; still visible in the table.
    Zombie,
    /// No entry in the table under this ID: reaped, or never existed.
    NotFound,
}

impl ProcessStatus {
    /// A terminal status ends a sampler without error: the target is
    /// gone, whether or not its exit status was collected yet.
    pub open spec fn is_terminal(self) -> bool {
        self != ProcessStatus::Running
    }
}

/// One tick's view of the target: its status, and its resident memory
/// in bytes when — and only when — it is running.
#[derive(Clone, Copy, Debug, PartialEq, Eq, Structural)]
pub struct ProcessObservation {
    pub status: ProcessStatus,
    pub memory: u64,
}

/// What [`classify`] makes of a raw probe.
pub open spec fn classify_spec(probe: Option<(bool, u64)>) -> ProcessObservation {
    match probe {
        Option::None => ProcessObservation { status: ProcessStatus::NotFound, memory: 0 },
        Option::Some((zombie, memory)) => {
            if zombie {
                ProcessObservation { status: ProcessStatus::Zombie, memory: 0 }
            } else {
                ProcessObservation { status: ProcessStatus::Running, memory }
            }
        },
    }
}

/// Turn a raw probe of the process table — absent, or present with a
/// zombie flag and a memory reading — into the library's classification.
/// A metric value is kept only for a running process.
pub fn classify(probe: Option<(bool, u64)>) -> (obs: ProcessObservation)
    ensures
        obs == classify_spec(probe),
        obs.status.is_terminal() ==> obs.memory == 0,
{
    match probe {
        Option::None => ProcessObservation { status: ProcessStatus::NotFound, memory: 0 },
        Option::Some((zombie, memory)) => {
            if zombie {
                ProcessObservation { status: ProcessStatus::Zombie, memory: 0 }
            } else {
                ProcessObservation { status: ProcessStatus::Running, memory }
            }
        },
    }
}

#[verifier::external_type_specification]
#[verifier::external_body]
pub struct ExSystem(sysinfo::System);

/// Relies on `sysinfo::System::refresh_processes` with
/// `ProcessesToUpdate::All`: re-reads live process information
/// system-wide, dropping entries of processes that no longer exist.
/// What the refreshed table holds depends on the machine, so nothing is
/// promised of it here.
#[verifier::external_body]
fn table_refresh(sys: &mut sysinfo::System) {
    sys.refresh_processes(sysinfo::ProcessesToUpdate::All, true);
}

/// Relies on `sysinfo::System::process`, `Process::status` and
/// `Process::memory`: `None` when the table has no entry for the ID,
/// otherwise the entry's zombie flag and its resident memory in bytes.
/// The probe reflects whatever the last refresh saw; nothing more can
/// be promised of a live process table.
#[verifier::external_body]
fn table_probe(sys: &sysinfo::System, pid: u32) -> (probe: Option<(bool, u64)>) {
    sys.process(sysinfo::Pid::from_u32(pid)).map(
        |p| (matches!(p.status(), sysinfo::ProcessStatus::Zombie), p.memory()),
    )
}

/// Refresh the shared process table and classify the target process.
///
/// This is the whole refresh-then-query step of one tick; a caller that
/// shares the table across samplers holds its mutual-exclusion scope
/// around this single call, so no sampler can refresh between another's
/// refresh and query. What comes back depends on the machine; whatever
/// it is, a terminal classification carries no metric value.
pub fn observe_target(sys: &mut sysinfo::System, pid: u32) -> (obs: ProcessObservation)
    ensures
        obs.status.is_terminal() ==> obs.memory == 0,
{
    table_refresh(sys);
    let probe = table_probe(sys, pid);
    classify(probe)
}

} // verus!

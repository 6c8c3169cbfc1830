//! The metric sampler: a two-state machine driven by one observation of
//! the target process per tick.
//!
//! A sampler starts in `Sampling`. Each tick it is handed the fresh
//! classification of the target: while the target runs, the sampler
//! emits one record line and keeps sampling; on the first terminal
//! observation it moves to `Stopped` and emits nothing, ever again.
//! The waiting, the lock around the shared process table and the file
//! the lines go to all belong to the caller; everything the sampler
//! decides is here, proved over whole observation histories.

use vstd::prelude::*;
use crate::process::{ProcessObservation, ProcessStatus};
use crate::record::record_line;
use crate::record::format_record;
use crate::process::observe_target;

verus! {

/// The two states of a metric sampler.
#[derive(Clone, Copy, Debug, PartialEq, Eq, Structural)]
pub enum SamplerState {
    /// The sampler still observes the target each tick.
    Sampling,
    /// The sampler saw the target terminate; terminal.
    Stopped,
}

/// What one tick decides: the next state, and the record line to
/// append, if any. A stopped sampler stays stopped and appends nothing;
/// a sampling one appends exactly when the target is running.
pub open spec fn step_spec(state: SamplerState, obs: ProcessObservation, ts: Seq<char>) -> (
    SamplerState,
    Option<Seq<char>>,
) {
    match state {
        SamplerState::Stopped => (SamplerState::Stopped, Option::None),
        SamplerState::Sampling => {
            if obs.status == ProcessStatus::Running {
                (SamplerState::Sampling, Option::Some(record_line(ts, obs.memory as nat)))
            } else {
                (SamplerState::Stopped, Option::None)
            }
        },
    }
}

/// One tick of a sampler, on plain values: the observation of the
/// target and the timestamp to stamp a record with.
pub fn sampler_step(state: SamplerState, obs: ProcessObservation, timestamp: &str) -> (r: (
    SamplerState,
    Option<String>,
))
    ensures
        r.0 == step_spec(state, obs, timestamp@).0,
        (match r.1 {
            Option::Some(l) => step_spec(state, obs, timestamp@).1 == Option::Some(l@),
            Option::None => step_spec(state, obs, timestamp@).1 is None,
        }),
{
    match state {
        SamplerState::Stopped => (SamplerState::Stopped, None),
        SamplerState::Sampling => {
            match obs.status {
                ProcessStatus::Running => {
                    let line = format_record(timestamp, obs.memory);
                    (SamplerState::Sampling, Some(line))
                },
                _ => (SamplerState::Stopped, None),
            }
        },
    }
}

/// A whole run from tick `i` on: the final state, and every line
/// appended from that tick to the end of the history.
pub open spec fn run_from(
    state: SamplerState,
    obs: Seq<ProcessObservation>,
    ts: Seq<Seq<char>>,
    i: int,
) -> (SamplerState, Seq<Seq<char>>)
    decreases obs.len() - i,
{
    if i < 0 || i >= obs.len() {
        (state, Seq::empty())
    } else {
        let head = step_spec(state, obs[i], ts[i]);
        let rest = run_from(head.0, obs, ts, i + 1);
        (
            rest.0,
            (match head.1 {
                Option::Some(l) => seq![l],
                Option::None => Seq::empty(),
            }) + rest.1,
        )
    }
}

/// A whole run of a sampler over an observation history.
pub open spec fn run_steps(
    state: SamplerState,
    obs: Seq<ProcessObservation>,
    ts: Seq<Seq<char>>,
) -> (SamplerState, Seq<Seq<char>>) {
    run_from(state, obs, ts, 0)
}

/// The first tick at or after `i` whose observation is terminal, or the
/// end of the history when there is none.
pub open spec fn first_stop_from(obs: Seq<ProcessObservation>, i: int) -> int
    decreases obs.len() - i,
{
    if i < 0 || i >= obs.len() {
        obs.len() as int
    } else if obs[i].status.is_terminal() {
        i
    } else {
        first_stop_from(obs, i + 1)
    }
}

/// The first tick whose observation is terminal, or the length of the
/// history when the target outlived it.
pub open spec fn first_stop(obs: Seq<ProcessObservation>) -> int {
    first_stop_from(obs, 0)
}

proof fn lemma_first_stop_from_bounds(obs: Seq<ProcessObservation>, i: int)
    requires
        0 <= i <= obs.len(),
    ensures
        i <= first_stop_from(obs, i) <= obs.len(),
        first_stop_from(obs, i) < obs.len() ==> obs[first_stop_from(obs, i)].status.is_terminal(),
        forall|j: int| i <= j < first_stop_from(obs, i) ==> !(#[trigger] obs[j].status).is_terminal(),
    decreases obs.len() - i,
{
    if i < obs.len() && !obs[i].status.is_terminal() {
        lemma_first_stop_from_bounds(obs, i + 1);
    }
}

proof fn lemma_run_from_characterized(
    state: SamplerState,
    obs: Seq<ProcessObservation>,
    ts: Seq<Seq<char>>,
    i: int,
)
    requires
        obs.len() == ts.len(),
        0 <= i <= obs.len(),
    ensures
        state == SamplerState::Stopped ==> run_from(state, obs, ts, i) == (
            SamplerState::Stopped,
            Seq::<Seq<char>>::empty(),
        ),
        state == SamplerState::Sampling ==> ({
            let r = run_from(state, obs, ts, i);
            let f = first_stop_from(obs, i);
            &&& r.1.len() == f - i
            &&& forall|j: int|
                0 <= j < r.1.len() ==> r.1[j] == record_line(ts[i + j], obs[i + j].memory as nat)
            &&& r.0 == (if f < obs.len() {
                SamplerState::Stopped
            } else {
                SamplerState::Sampling
            })
        }),
    decreases obs.len() - i,
{
    lemma_first_stop_from_bounds(obs, i);
    if i < obs.len() {
        let head_sampling = step_spec(SamplerState::Sampling, obs[i], ts[i]);
        lemma_run_from_characterized(head_sampling.0, obs, ts, i + 1);
        lemma_run_from_characterized(SamplerState::Stopped, obs, ts, i + 1);
        if !obs[i].status.is_terminal() {
            let r = run_from(SamplerState::Sampling, obs, ts, i);
            let rest = run_from(SamplerState::Sampling, obs, ts, i + 1);
            assert(r.1 =~= seq![record_line(ts[i], obs[i].memory as nat)] + rest.1);
        } else {
            let r = run_from(SamplerState::Sampling, obs, ts, i);
            assert(r.1 =~= Seq::<Seq<char>>::empty());
        }
    }
}

/// What a sampler writes, in full: starting from `Sampling`, it appends
/// exactly one record per tick that observed the target running before
/// the first terminal observation — one sample per tick of the target's
/// lifetime, no more and no fewer — each stamped with that tick's
/// timestamp and value; and it ends `Stopped` exactly when some
/// observation was terminal.
pub proof fn lemma_sampler_records_running_prefix(
    obs: Seq<ProcessObservation>,
    ts: Seq<Seq<char>>,
)
    requires
        obs.len() == ts.len(),
    ensures
        ({
            let r = run_steps(SamplerState::Sampling, obs, ts);
            &&& r.1.len() == first_stop(obs)
            &&& forall|j: int|
                0 <= j < r.1.len() ==> r.1[j] == record_line(ts[j], obs[j].memory as nat)
            &&& r.0 == (if first_stop(obs) < obs.len() {
                SamplerState::Stopped
            } else {
                SamplerState::Sampling
            })
        }),
{
    lemma_run_from_characterized(SamplerState::Sampling, obs, ts, 0);
}

/// Idempotent termination: once some tick observed the target as
/// `Zombie` or `NotFound`, no later tick appends a record — everything
/// the sampler ever writes comes from ticks before that observation.
pub proof fn lemma_no_records_after_termination(
    obs: Seq<ProcessObservation>,
    ts: Seq<Seq<char>>,
    k: int,
)
    requires
        obs.len() == ts.len(),
        0 <= k < obs.len(),
        obs[k].status.is_terminal(),
    ensures
        run_steps(SamplerState::Sampling, obs, ts).1.len() <= k,
        run_steps(SamplerState::Sampling, obs, ts).0 == SamplerState::Stopped,
{
    lemma_sampler_records_running_prefix(obs, ts);
    lemma_first_stop_from_bounds(obs, 0);
}

/// A stopped sampler is inert: whatever it goes on observing, it stays
/// stopped and appends nothing.
pub proof fn lemma_stopped_stays_stopped(obs: Seq<ProcessObservation>, ts: Seq<Seq<char>>)
    requires
        obs.len() == ts.len(),
    ensures
        run_steps(SamplerState::Stopped, obs, ts).0 == SamplerState::Stopped,
        run_steps(SamplerState::Stopped, obs, ts).1 == Seq::<Seq<char>>::empty(),
{
    lemma_run_from_characterized(SamplerState::Stopped, obs, ts, 0);
}

/// Two samplers racing the same target both come to rest: whatever
/// order their ticks interleave in, once each history holds a terminal
/// observation of the shared target, both runs end `Stopped`.
pub proof fn lemma_all_samplers_stop(
    obs1: Seq<ProcessObservation>,
    ts1: Seq<Seq<char>>,
    obs2: Seq<ProcessObservation>,
    ts2: Seq<Seq<char>>,
    k1: int,
    k2: int,
)
    requires
        obs1.len() == ts1.len(),
        obs2.len() == ts2.len(),
        0 <= k1 < obs1.len(),
        0 <= k2 < obs2.len(),
        obs1[k1].status.is_terminal(),
        obs2[k2].status.is_terminal(),
    ensures
        run_steps(SamplerState::Sampling, obs1, ts1).0 == SamplerState::Stopped,
        run_steps(SamplerState::Sampling, obs2, ts2).0 == SamplerState::Stopped,
{
    lemma_no_records_after_termination(obs1, ts1, k1);
    lemma_no_records_after_termination(obs2, ts2, k2);
}

/// Relies on `chrono::Local::now` and the `Display` of
/// `DateTime<Local>`: the wall-clock local time, rendered as a
/// non-empty string that contains no newline.
#[verifier::external_body]
fn local_timestamp() -> (ts: String)
    ensures
        ts@.len() > 0,
        forall|i: int| 0 <= i < ts@.len() ==> ts@[i] != '\n',
{
    chrono::Local::now().to_string()
}

/// One full tick of a live sampler against the shared process table:
/// refresh and query the table, classify the target, and step the
/// machine with a fresh wall-clock timestamp.
///
/// The caller holds the table's mutual-exclusion scope around this call
/// and owns the sleep before it and the append after it. What the table
/// says depends on the machine; whatever it says, a line is emitted
/// exactly when the sampler keeps sampling, and every emitted line is a
/// well-formed record of a single-line timestamp and the observed
/// value, so it parses back as [`crate::record::parse_line`] describes.
pub fn sampler_tick(sys: &mut sysinfo::System, pid: u32, state: SamplerState) -> (r: (
    SamplerState,
    Option<String>,
))
    ensures
        state == SamplerState::Stopped ==> r.0 == SamplerState::Stopped,
        r.1 is Some <==> r.0 == SamplerState::Sampling && state == SamplerState::Sampling,
        (match r.1 {
            Option::Some(l) => exists|ts: Seq<char>, v: u64|
                l@ == #[trigger] record_line(ts, v as nat) && ts.len() > 0 && (forall|i: int|
                    0 <= i < ts.len() ==> ts[i] != '\n'),
            Option::None => true,
        }),
{
    match state {
        SamplerState::Stopped => (SamplerState::Stopped, None),
        SamplerState::Sampling => {
            let obs = observe_target(sys, pid);
            let timestamp = local_timestamp();
            let r = sampler_step(state, obs, timestamp.as_str());
            proof {
                if r.1 is Some {
                    let l = r.1->0;
                    assert(l@ == record_line(timestamp@, obs.memory as nat));
                }
            }
            r
        },
    }
}

} // verus!

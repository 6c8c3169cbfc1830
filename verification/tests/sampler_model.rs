use platypus::process::{classify, ProcessObservation, ProcessStatus};
use platypus::sampler::{sampler_step, SamplerState};

#[test]
fn classifies_an_absent_process() {
    let obs = classify(None);
    assert_eq!(obs.status, ProcessStatus::NotFound);
    assert_eq!(obs.memory, 0);
}

#[test]
fn classifies_a_zombie_without_a_value() {
    let obs = classify(Some((true, 4096)));
    assert_eq!(obs.status, ProcessStatus::Zombie);
    assert_eq!(obs.memory, 0);
}

#[test]
fn classifies_a_running_process_with_its_memory() {
    let obs = classify(Some((false, 4096)));
    assert_eq!(obs.status, ProcessStatus::Running);
    assert_eq!(obs.memory, 4096);
}

#[test]
fn a_running_tick_appends_one_stamped_record() {
    let obs = ProcessObservation { status: ProcessStatus::Running, memory: 77 };
    let (state, line) = sampler_step(SamplerState::Sampling, obs, "t0");
    assert_eq!(state, SamplerState::Sampling);
    assert_eq!(line, Some("t0: 77\n".to_string()));
}

#[test]
fn a_terminal_tick_stops_without_a_record() {
    let zombie = ProcessObservation { status: ProcessStatus::Zombie, memory: 0 };
    let (state, line) = sampler_step(SamplerState::Sampling, zombie, "t0");
    assert_eq!(state, SamplerState::Stopped);
    assert_eq!(line, None);

    let gone = ProcessObservation { status: ProcessStatus::NotFound, memory: 0 };
    let (state, line) = sampler_step(SamplerState::Sampling, gone, "t0");
    assert_eq!(state, SamplerState::Stopped);
    assert_eq!(line, None);
}

#[test]
fn nothing_is_appended_after_termination() {
    // The target runs for two ticks, is seen as a zombie on the third,
    // and the process table would even report it running again later:
    // the sampler still appends exactly the first two records.
    let history = vec![
        ProcessObservation { status: ProcessStatus::Running, memory: 5 },
        ProcessObservation { status: ProcessStatus::Running, memory: 6 },
        ProcessObservation { status: ProcessStatus::Zombie, memory: 0 },
        ProcessObservation { status: ProcessStatus::Running, memory: 9 },
    ];
    let stamps = ["t0", "t1", "t2", "t3"];
    let mut state = SamplerState::Sampling;
    let mut lines: Vec<String> = Vec::new();
    for (obs, ts) in history.iter().zip(stamps.iter()) {
        let (next, line) = sampler_step(state, *obs, ts);
        if let Some(l) = line {
            lines.push(l);
        }
        state = next;
    }
    assert_eq!(state, SamplerState::Stopped);
    assert_eq!(lines, vec!["t0: 5\n".to_string(), "t1: 6\n".to_string()]);
}

#[test]
fn a_stopped_sampler_stays_stopped() {
    let obs = ProcessObservation { status: ProcessStatus::Running, memory: 5 };
    let (state, line) = sampler_step(SamplerState::Stopped, obs, "t0");
    assert_eq!(state, SamplerState::Stopped);
    assert_eq!(line, None);
}

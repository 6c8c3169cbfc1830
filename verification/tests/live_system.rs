use std::sync::Arc;
use std::time::Duration;

use platypus::process::{observe_target, ProcessStatus};
use platypus::record::parse_record;
use platypus::sampler::{sampler_tick, SamplerState};

#[test]
fn observes_this_very_process_as_running() {
    let mut sys = sysinfo::System::new_all();
    let pid = sysinfo::get_current_pid().unwrap().as_u32();
    let obs = observe_target(&mut sys, pid);
    assert_eq!(obs.status, ProcessStatus::Running);
}

#[test]
fn observes_an_impossible_pid_as_not_found() {
    let mut sys = sysinfo::System::new_all();
    let obs = observe_target(&mut sys, u32::MAX - 1);
    assert_eq!(obs.status, ProcessStatus::NotFound);
    assert_eq!(obs.memory, 0);
}

#[test]
fn a_live_tick_emits_a_line_that_parses_back() {
    let mut sys = sysinfo::System::new_all();
    let pid = sysinfo::get_current_pid().unwrap().as_u32();
    let (state, line) = sampler_tick(&mut sys, pid, SamplerState::Sampling);
    assert_eq!(state, SamplerState::Sampling);
    let line = line.unwrap();
    let (timestamp, _value) = parse_record(line.as_str()).unwrap();
    assert!(!timestamp.is_empty());
    assert!(!timestamp.contains('\n'));
}

#[test]
fn a_stopped_sampler_ticks_inertly_even_on_a_live_target() {
    let mut sys = sysinfo::System::new_all();
    let pid = sysinfo::get_current_pid().unwrap().as_u32();
    let (state, line) = sampler_tick(&mut sys, pid, SamplerState::Stopped);
    assert_eq!(state, SamplerState::Stopped);
    assert_eq!(line, None);
}

#[test]
fn two_samplers_against_a_short_lived_target_both_stop() {
    let rt = tokio::runtime::Builder::new_multi_thread()
        .enable_all()
        .build()
        .unwrap();
    rt.block_on(async {
        let child = tokio::process::Command::new("sleep")
            .arg("1")
            .spawn()
            .expect("spawning the target");
        let pid = child.id().expect("the target's pid");
        let table = Arc::new(tokio::sync::Mutex::new(sysinfo::System::new_all()));

        let mut tasks = Vec::new();
        for _ in 0..2 {
            let table = Arc::clone(&table);
            tasks.push(tokio::spawn(async move {
                let mut state = SamplerState::Sampling;
                let mut lines: Vec<String> = Vec::new();
                loop {
                    tokio::time::sleep(Duration::from_millis(100)).await;
                    let mut sys = table.lock().await;
                    let (next, line) = sampler_tick(&mut sys, pid, state);
                    drop(sys);
                    if let Some(l) = line {
                        lines.push(l);
                    }
                    state = next;
                    if state == SamplerState::Stopped {
                        break;
                    }
                }
                (state, lines)
            }));
        }
        for task in tasks {
            let (state, lines) = task.await.unwrap();
            assert_eq!(state, SamplerState::Stopped);
            // The target lived about a second against a tenth-second
            // tick: each sampler must have recorded it at least once,
            // and every recorded line must parse back.
            assert!(!lines.is_empty());
            for line in &lines {
                assert!(parse_record(line.as_str()).is_some());
            }
        }
    });
}

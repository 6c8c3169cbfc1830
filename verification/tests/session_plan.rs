use platypus::errors::SessionError;
use platypus::session::{metric_log_filename, plan_session};

#[test]
fn an_output_path_that_is_a_plain_file_is_refused() {
    let r = plan_session(true, 500, "sleep 2");
    assert!(matches!(r, Err(SessionError::ConfigError)));
}

#[test]
fn the_config_check_comes_before_the_command_check() {
    // Even an unlaunchable command is not what gets reported when the
    // output path is ambiguous.
    let r = plan_session(true, 500, "");
    assert!(matches!(r, Err(SessionError::ConfigError)));
}

#[test]
fn an_unlaunchable_command_is_refused() {
    let r = plan_session(false, 250, "");
    assert!(matches!(r, Err(SessionError::LaunchError)));
    let r = plan_session(false, 250, " ls");
    assert!(matches!(r, Err(SessionError::LaunchError)));
}

#[test]
fn a_good_plan_carries_command_channels_and_tick() {
    let p = plan_session(false, 125, "sleep 2").unwrap();
    assert_eq!(p.command.program, "sleep");
    assert_eq!(p.command.args, vec!["2".to_string()]);
    assert_eq!(p.tick_ms, 125);
    assert_eq!(p.channels.len(), 2);
    assert_eq!(p.channels[0].metric, "memory");
    assert_eq!(p.channels[0].file_name, "memory.log");
    assert_eq!(p.channels[1].metric, "cpu");
    assert_eq!(p.channels[1].file_name, "cpu.log");
}

#[test]
fn channel_files_are_named_after_their_metric() {
    assert_eq!(metric_log_filename("memory"), "memory.log");
    assert_eq!(metric_log_filename("cpu"), "cpu.log");
}

#[test]
fn every_error_has_a_description() {
    assert!(!SessionError::ConfigError.describe().is_empty());
    assert!(!SessionError::LaunchError.describe().is_empty());
    assert!(!SessionError::ObservationError.describe().is_empty());
    assert!(!SessionError::WriteError.describe().is_empty());
}

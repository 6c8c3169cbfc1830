use platypus::command::parse_command;
use platypus::errors::SessionError;

#[test]
fn splits_program_and_arguments() {
    let c = parse_command("ls -la /tmp").unwrap();
    assert_eq!(c.program, "ls");
    assert_eq!(c.args, vec!["-la".to_string(), "/tmp".to_string()]);
}

#[test]
fn accepts_a_bare_program() {
    let c = parse_command("echo").unwrap();
    assert_eq!(c.program, "echo");
    assert!(c.args.is_empty());
}

#[test]
fn a_literal_space_always_splits() {
    let c = parse_command("grep a  b").unwrap();
    assert_eq!(c.program, "grep");
    assert_eq!(c.args, vec!["a".to_string(), "".to_string(), "b".to_string()]);
}

#[test]
fn rejects_an_empty_command() {
    assert_eq!(parse_command(""), Err(SessionError::LaunchError));
}

#[test]
fn rejects_a_command_with_no_program() {
    assert_eq!(parse_command(" ls"), Err(SessionError::LaunchError));
}

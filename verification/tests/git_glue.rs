use git_switch_user::cli::parse_yes;
use git_switch_user::git::{interpret_git_exit, BackendInvocationError, GitOutput};

#[test]
fn exit_zero_carries_the_output() {
    let r = interpret_git_exit(Some(0), "a@x.com".to_string());
    assert_eq!(r, Ok(GitOutput::Value("a@x.com".to_string())));
}

#[test]
fn exit_one_is_the_normal_negative_result() {
    let r = interpret_git_exit(Some(1), String::new());
    assert_eq!(r, Ok(GitOutput::NoValue));
}

#[test]
fn other_exits_are_invocation_failures() {
    assert_eq!(interpret_git_exit(Some(2), String::new()), Err(BackendInvocationError));
    assert_eq!(interpret_git_exit(Some(128), String::new()), Err(BackendInvocationError));
    assert_eq!(interpret_git_exit(Some(-1), String::new()), Err(BackendInvocationError));
    assert_eq!(interpret_git_exit(None, String::new()), Err(BackendInvocationError));
}

#[test]
fn value_or_empty_unwraps_reads() {
    assert_eq!(GitOutput::Value("x".to_string()).value_or_empty(), "x");
    assert_eq!(GitOutput::NoValue.value_or_empty(), "");
}

#[test]
fn affirmative_answers() {
    for yes in ["y", "Y", "yes", "YES", "Yes"] {
        assert!(parse_yes(yes));
    }
}

#[test]
fn everything_else_is_no() {
    for no in ["", "n", "N", "no", "yES", "yeS", "ja", " y", "y "] {
        assert!(!parse_yes(no));
    }
}

use hilen_release::run::{captured, exit_outcome, probe, run_quiet, run_secret, shell, RunError};

#[test]
fn sh_takes_the_string_as_one_argument() {
    let c = shell("echo \"a b\"", false);
    assert_eq!(c.program, "sh");
    assert_eq!(c.args, vec!["-c".to_string(), "echo \"a b\"".to_string()]);
    assert_eq!(c.raw, None);
}

#[test]
fn cmd_gets_the_string_untouched_in_one_pair_of_quotes() {
    let c = shell("git commit -m \"release v1.2.3\"", true);
    assert_eq!(c.program, "cmd");
    assert_eq!(c.args, vec!["/S".to_string(), "/C".to_string()]);
    assert_eq!(c.raw, Some("\"git commit -m \"release v1.2.3\"\"".to_string()));
}

#[test]
fn a_non_zero_exit_fails_the_command() {
    assert_eq!(exit_outcome("true", true), Ok(()));
    assert_eq!(exit_outcome("false", false), Err(RunError::Failed { cmd: "false".to_string() }));
    assert_eq!(run_secret(true), Ok(()));
    assert_eq!(run_secret(false), Err(RunError::SecretFailed));
}

#[test]
fn captured_output_is_trimmed() {
    assert_eq!(captured("id -u", true, b"  1000\n"), Ok("1000".to_string()));
    assert_eq!(captured("id -u", false, b"1000\n"), Err(RunError::Failed { cmd: "id -u".to_string() }));
}

#[test]
fn probe_says_stdout_then_stderr() {
    assert_eq!(probe(Some((b"out\n", b"err\n"))), "out\nerr\n");
    assert_eq!(probe(None), "");
}

#[test]
fn a_quiet_failure_carries_the_output() {
    assert_eq!(run_quiet("make", true, b"ok", b""), Ok("ok".to_string()));
    assert_eq!(
        run_quiet("make", false, b"so", b"se"),
        Err(RunError::FailedQuietly { cmd: "make".to_string(), output: "sose".to_string() })
    );
}


// On Windows the inner quotes used to reach git escaped, as 2 words.
#[test]
fn a_quoted_argument_stays_one_argument() {
    let cmd = r#"git rev-parse --sq-quote "two words""#;
    let unix = shell(cmd, false);
    assert_eq!(unix.args, vec!["-c".to_string(), cmd.to_string()]);
    let windows = shell(cmd, true);
    assert_eq!(windows.raw, Some(format!("\"{cmd}\"")));
    let out = captured(cmd, true, b" 'two words'\n").unwrap();
    assert_eq!(out, "'two words'");
}

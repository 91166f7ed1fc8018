use tpm_quote::command::{lookup, tokenize, tool_environment, TPM_TOOLS_PATH};
use tpm_quote::runner::{
    run, CommandRun, RunError, Verdict, EXIT_SUCCESS, MAX_TRY, RETRY_SLEEP_MILLIS, TPM_IO_ERROR,
};

fn env(pairs: &[(&str, &str)]) -> Vec<(String, String)> {
    pairs.iter().map(|(k, v)| (k.to_string(), v.to_string())).collect()
}

fn prepared(cmd: &str, raise_on_error: bool, output_path: &str) -> CommandRun {
    run(
        cmd.to_string(),
        EXIT_SUCCESS,
        raise_on_error,
        false,
        output_path.to_string(),
        env(&[("PATH", "/usr/bin")]),
    )
    .unwrap()
}

#[test]
fn tokenize_cuts_at_every_space() {
    assert_eq!(tokenize("pcrreset -ix 16"), vec!["pcrreset", "-ix", "16"]);
    assert_eq!(tokenize("getcapability"), vec!["getcapability"]);
    assert_eq!(tokenize(""), vec![""]);
    assert_eq!(tokenize(" "), vec!["", ""]);
    assert_eq!(tokenize("a  b"), vec!["a", "", "b"]);
    assert_eq!(tokenize(" a b "), vec!["", "a", "b", ""]);
    assert_eq!(tokenize("a\tb c"), vec!["a\tb", "c"]);
    assert_eq!(tokenize("\u{e9}t\u{e9} \u{4e16}"), vec!["\u{e9}t\u{e9}", "\u{4e16}"]);
}

#[test]
fn tokenize_agrees_with_split_and_joins_back() {
    for line in ["", "x", "a b c", "  lead", "trail  ", "tpmquote -hk 0x1 -pwdk pw -bm 1"] {
        let pieces = tokenize(line);
        let expected: Vec<String> = line.split(' ').map(|s| s.to_string()).collect();
        assert_eq!(pieces, expected);
        assert_eq!(pieces.join(" "), line);
    }
}

#[test]
fn lookup_takes_the_last_entry() {
    let vars = env(&[("A", "1"), ("B", "2"), ("A", "3")]);
    assert_eq!(lookup(&vars, "A"), Some("3".to_string()));
    assert_eq!(lookup(&vars, "B"), Some("2".to_string()));
    assert_eq!(lookup(&vars, "C"), None);
    assert_eq!(lookup(&Vec::new(), "A"), None);
}

#[test]
fn tool_environment_sets_the_server_and_extends_the_path() {
    let vars = tool_environment(env(&[
        ("HOME", "/root"),
        ("PATH", "/usr/bin:/bin"),
        ("TPM_SERVER_PORT", "1"),
    ]))
    .unwrap();
    assert_eq!(lookup(&vars, "HOME"), Some("/root".to_string()));
    assert_eq!(lookup(&vars, "TPM_SERVER_PORT"), Some("9998".to_string()));
    assert_eq!(lookup(&vars, "TPM_SERVER_NAME"), Some("localhost".to_string()));
    assert_eq!(lookup(&vars, "PATH"), Some("/usr/bin:/bin/usr/local/bin/".to_string()));
    assert_eq!(lookup(&vars, "OTHER"), None);
    assert_eq!(TPM_TOOLS_PATH, "/usr/local/bin/");
}

#[test]
fn tool_environment_appends_the_tools_path_as_it_is() {
    let vars = tool_environment(env(&[("PATH", "/opt/tpm:")])).unwrap();
    assert_eq!(lookup(&vars, "PATH"), Some(format!("/opt/tpm:{}", TPM_TOOLS_PATH)));
    let vars = tool_environment(env(&[("PATH", "")])).unwrap();
    assert_eq!(lookup(&vars, "PATH"), Some(TPM_TOOLS_PATH.to_string()));
    let vars = tool_environment(env(&[("PATH", "/first"), ("PATH", "/last")])).unwrap();
    assert_eq!(lookup(&vars, "PATH"), Some("/last/usr/local/bin/".to_string()));
}

#[test]
fn tool_environment_needs_a_path() {
    assert_eq!(tool_environment(env(&[("HOME", "/root")])), None);
    assert_eq!(tool_environment(Vec::new()), None);
}

#[test]
fn run_names_the_tool_and_its_arguments() {
    let r = prepared("tpmquote -hk 0x1 -noverify -oq /tmp/q", true, "/tmp/q");
    assert_eq!(r.command, "tpmquote -hk 0x1 -noverify -oq /tmp/q");
    assert_eq!(r.program, "tpmquote");
    assert_eq!(r.args, vec!["-hk", "0x1", "-noverify", "-oq", "/tmp/q"]);
    assert_eq!(r.except_code, 0);
    assert!(r.raise_on_error);
    assert_eq!(r.output_path, "/tmp/q");
    assert_eq!(r.busy, 0);
    assert_eq!(lookup(&r.env, "PATH"), Some("/usr/bin/usr/local/bin/".to_string()));
    assert_eq!(lookup(&r.env, "TPM_SERVER_PORT"), Some("9998".to_string()));
    assert_eq!(lookup(&r.env, "TPM_SERVER_NAME"), Some("localhost".to_string()));
}

#[test]
fn run_refuses_a_line_without_a_tool() {
    let no_path: Vec<(String, String)> = Vec::new();
    assert_eq!(
        run(String::new(), 0, true, false, String::new(), env(&[("PATH", "/bin")])),
        Err(RunError::MalformedCommand)
    );
    assert_eq!(
        run(" ls".to_string(), 0, true, false, String::new(), env(&[("PATH", "/bin")])),
        Err(RunError::MalformedCommand)
    );
    assert_eq!(
        run(String::new(), 0, true, false, String::new(), no_path),
        Err(RunError::MalformedCommand)
    );
}

#[test]
fn run_refuses_an_environment_without_a_path() {
    assert_eq!(
        run("ls".to_string(), 0, true, false, String::new(), env(&[("HOME", "/")])),
        Err(RunError::NoSearchPath)
    );
}

#[test]
fn a_busy_tpm_is_tried_exactly_max_try_times() {
    let mut r = prepared("tpmquote", false, "");
    let mut started = 0;
    loop {
        started += 1;
        assert!(started <= 1000);
        match r.observe(Some(TPM_IO_ERROR)) {
            Verdict::Retry => continue,
            Verdict::Exhausted => break,
            Verdict::Finished => panic!("a busy attempt does not finish the run"),
        }
    }
    assert_eq!(started, MAX_TRY);
    assert_eq!(started, 10);
    assert_eq!(r.busy, MAX_TRY);
    let outcome = r.finish(b"busy".to_vec(), Some(TPM_IO_ERROR), None).unwrap();
    assert_eq!(outcome.exit_code, Some(5));
    assert_eq!(outcome.stdout, b"busy".to_vec());
    assert_eq!(outcome.file_output, Some(String::new()));
}

#[test]
fn an_exhausted_run_stays_exhausted() {
    let mut r = prepared("tpmquote", false, "");
    for _ in 0..MAX_TRY {
        r.observe(Some(TPM_IO_ERROR));
    }
    assert_eq!(r.observe(Some(TPM_IO_ERROR)), Verdict::Exhausted);
    assert_eq!(r.busy, MAX_TRY);
    assert_eq!(r.observe(Some(0)), Verdict::Finished);
}

#[test]
fn no_other_exit_code_is_tried_again() {
    for code in [Some(0), Some(1), Some(4), Some(6), Some(-1), Some(255), Some(i32::MAX), None] {
        let mut r = prepared("tpmquote", false, "");
        assert_eq!(r.observe(code), Verdict::Finished);
        assert_eq!(r.busy, 0);
    }
}

#[test]
fn the_run_ends_with_the_first_other_code() {
    let mut r = prepared("tpmquote", true, "");
    assert_eq!(r.observe(Some(5)), Verdict::Retry);
    assert_eq!(r.observe(Some(5)), Verdict::Retry);
    assert_eq!(r.observe(Some(5)), Verdict::Retry);
    assert_eq!(r.busy, 3);
    assert_eq!(r.observe(Some(0)), Verdict::Finished);
    assert_eq!(r.busy, 3);
    assert_eq!(r.program, "tpmquote");
    assert_eq!(RETRY_SLEEP_MILLIS, 50);
}

#[test]
fn the_ninth_busy_attempt_is_tried_again_and_the_tenth_is_not() {
    let mut r = prepared("tpmquote", true, "");
    for _ in 0..8 {
        assert_eq!(r.observe(Some(5)), Verdict::Retry);
    }
    assert_eq!(r.observe(Some(5)), Verdict::Retry);
    assert_eq!(r.observe(Some(5)), Verdict::Exhausted);
}

#[test]
fn finish_hands_on_what_the_tool_left() {
    let r = prepared("tpmquote -oq /tmp/q", true, "/tmp/q");
    let outcome = r.finish(b"out".to_vec(), Some(0), Some("raw quote".to_string())).unwrap();
    assert_eq!(outcome.stdout, b"out".to_vec());
    assert_eq!(outcome.exit_code, Some(0));
    assert_eq!(outcome.file_output, Some("raw quote".to_string()));
}

#[test]
fn finish_swallows_a_file_that_could_not_be_read() {
    let r = prepared("tpmquote -oq /tmp/q", true, "/tmp/q");
    assert!(r.wants_file());
    let outcome = r.finish(Vec::new(), Some(0), None).unwrap();
    assert_eq!(outcome.file_output, Some(String::new()));
}

#[test]
fn finish_takes_no_file_that_was_not_asked_for() {
    let r = prepared("pcrreset -ix 16", true, "");
    assert!(!r.wants_file());
    let outcome = r.finish(Vec::new(), Some(0), Some("stray".to_string())).unwrap();
    assert_eq!(outcome.file_output, Some(String::new()));
}

#[test]
fn finish_fails_on_an_unexpected_exit_code() {
    let r = prepared("extend -ix 16 -ic 00", true, "");
    assert_eq!(
        r.finish(b"no such pcr".to_vec(), Some(1), None),
        Err(RunError::UnexpectedExit {
            command: "extend -ix 16 -ic 00".to_string(),
            exit_code: Some(1),
            expected: 0,
            output: b"no such pcr".to_vec(),
        })
    );
}

#[test]
fn finish_fails_where_the_tool_left_no_exit_code() {
    let r = prepared("tpmquote", true, "");
    assert_eq!(
        r.finish(Vec::new(), None, None),
        Err(RunError::UnexpectedExit {
            command: "tpmquote".to_string(),
            exit_code: None,
            expected: 0,
            output: Vec::new(),
        })
    );
}

#[test]
fn finish_fails_on_a_tpm_that_stayed_busy_where_failures_are_raised() {
    let mut r = prepared("tpmquote", true, "");
    for _ in 0..MAX_TRY {
        r.observe(Some(TPM_IO_ERROR));
    }
    assert!(matches!(
        r.finish(Vec::new(), Some(TPM_IO_ERROR), None),
        Err(RunError::UnexpectedExit { exit_code: Some(5), expected: 0, .. })
    ));
}

#[test]
fn finish_lets_any_exit_code_pass_where_failures_are_not_raised() {
    for code in [Some(0), Some(1), Some(5), None] {
        let r = prepared("tpmquote", false, "");
        assert_eq!(r.finish(Vec::new(), code, None).unwrap().exit_code, code);
    }
}

#[test]
fn finish_expects_the_code_that_was_named() {
    let r = run("tool".to_string(), 3, true, false, String::new(), env(&[("PATH", "/bin")]))
        .unwrap();
    assert!(r.finish(Vec::new(), Some(3), None).is_ok());
    let r = run("tool".to_string(), 3, true, false, String::new(), env(&[("PATH", "/bin")]))
        .unwrap();
    assert!(r.finish(Vec::new(), Some(0), None).is_err());
}

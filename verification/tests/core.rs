use illumos_rs::runner::StreamEvent;
use illumos_rs::text;
use illumos_rs::{
    build_cmd, build_env, capture_outcome, drain_start, finish_run, note_eof, reader_record,
    ready_to_wait, sanitize_env, CapturedOutput, Error, ExitInfo,
};

fn pairs(v: &[(&str, &str)]) -> Vec<(String, String)> {
    v.iter().map(|(k, val)| (k.to_string(), val.to_string())).collect()
}

#[test]
fn locale_variables_are_stripped() {
    let ambient = pairs(&[
        ("LANG", "C"),
        ("PATH", "/bin"),
        ("LC_ALL", "C.UTF-8"),
        ("LC_MESSAGES", "de_DE"),
        ("HOME", "/root"),
    ]);
    let out = sanitize_env(&ambient, None);
    assert_eq!(out, pairs(&[("PATH", "/bin"), ("HOME", "/root")]));
}

#[test]
fn override_reintroduces_a_locale_variable() {
    let ambient = pairs(&[("LANG", "C"), ("PATH", "/bin")]);
    let ov = pairs(&[("LC_ALL", "POSIX")]);
    let out = sanitize_env(&ambient, Some(&ov));
    assert_eq!(out, pairs(&[("PATH", "/bin"), ("LC_ALL", "POSIX")]));
}

#[test]
fn override_wins_over_ambient() {
    let ambient = pairs(&[("FOO", "old"), ("PATH", "/bin")]);
    let ov = pairs(&[("FOO", "new")]);
    let out = sanitize_env(&ambient, Some(&ov));
    assert_eq!(out, pairs(&[("PATH", "/bin"), ("FOO", "new")]));
}

#[test]
fn build_env_keeps_pairs_and_absence() {
    let ov = pairs(&[("A", "1"), ("B", "2")]);
    assert_eq!(build_env(Some(&ov)), Some(pairs(&[("A", "1"), ("B", "2")])));
    assert_eq!(build_env(None), None);
}

#[test]
fn build_cmd_splits_program_and_args() {
    let spec = build_cmd(vec!["/bin/echo".to_string(), "x".to_string(), "y".to_string()], None);
    assert_eq!(spec.program, "/bin/echo");
    assert_eq!(spec.args, vec!["x".to_string(), "y".to_string()]);
    assert!(spec.env.is_none());
    assert!(spec.stdin.is_none());
    assert_eq!(
        spec.full_args(),
        vec!["/bin/echo".to_string(), "x".to_string(), "y".to_string()]
    );
}

#[test]
fn successful_capture_returns_stdout_unmodified() {
    let raw = CapturedOutput {
        exit: ExitInfo { code: Some(0) },
        stdout: b"hello\n".to_vec(),
        stderr: Vec::new(),
    };
    let args = vec!["/bin/echo".to_string(), "hello".to_string()];
    assert_eq!(capture_outcome(&args, raw).unwrap(), "hello\n");
}

#[test]
fn capture_keeps_surrounding_whitespace() {
    let raw = CapturedOutput {
        exit: ExitInfo { code: Some(0) },
        stdout: b"  spaced  \n\n".to_vec(),
        stderr: Vec::new(),
    };
    let args = vec!["/bin/cat".to_string()];
    assert_eq!(capture_outcome(&args, raw).unwrap(), "  spaced  \n\n");
}

#[test]
fn capture_failure_carries_args_and_stderr() {
    let raw = CapturedOutput {
        exit: ExitInfo { code: Some(1) },
        stdout: Vec::new(),
        stderr: b"boom".to_vec(),
    };
    let args = vec!["/usr/bin/tool".to_string(), "arg one".to_string()];
    let err = capture_outcome(&args, raw).unwrap_err();
    match &err {
        Error::FailedWithStderr { args: a, stderr } => {
            assert_eq!(a, &args);
            assert_eq!(stderr, "boom");
        }
        other => panic!("unexpected error: {}", other.render()),
    }
    let text = err.render();
    assert_eq!(text, "exec [\"/usr/bin/tool\", \"arg one\"]: failed \"boom\"");
    assert!(text.contains("arg one"));
}

#[test]
fn capture_rejects_invalid_utf8_stdout() {
    let raw = CapturedOutput {
        exit: ExitInfo { code: Some(0) },
        stdout: vec![0xff, 0xfe],
        stderr: Vec::new(),
    };
    let args = vec!["/bin/x".to_string()];
    let err = capture_outcome(&args, raw).unwrap_err();
    assert!(matches!(err, Error::InvalidUtf8 { .. }));
    assert_eq!(err.render(), "output was not valid UTF-8");
}

#[test]
fn capture_rejects_invalid_utf8_stderr_on_failure() {
    let raw = CapturedOutput {
        exit: ExitInfo { code: Some(2) },
        stdout: Vec::new(),
        stderr: vec![0x80],
    };
    let args = vec!["/bin/x".to_string()];
    let err = capture_outcome(&args, raw).unwrap_err();
    assert!(matches!(err, Error::InvalidUtf8 { .. }));
}

#[test]
fn zero_exit_is_success() {
    let args = vec!["/bin/true".to_string()];
    assert!(finish_run(&args, ExitInfo { code: Some(0) }).is_ok());
}

#[test]
fn exit_code_three_names_args_and_status() {
    let args = vec!["/bin/false".to_string(), "one".to_string(), "two".to_string()];
    let err = finish_run(&args, ExitInfo { code: Some(3) }).unwrap_err();
    match &err {
        Error::Failed { args: a, exit } => {
            assert_eq!(a, &args);
            assert_eq!(exit.code, Some(3));
        }
        other => panic!("unexpected error: {}", other.render()),
    }
    let text = err.render();
    assert_eq!(text, "exec [\"/bin/false\", \"one\", \"two\"]: failed exit code 3");
    assert!(text.contains("one") && text.contains("two") && text.contains("/bin/false"));
}

#[test]
fn signal_termination_is_reported() {
    let args = vec!["/bin/sleep".to_string()];
    let err = finish_run(&args, ExitInfo { code: None }).unwrap_err();
    assert_eq!(err.render(), "exec [\"/bin/sleep\"]: failed terminated by signal");
}

#[test]
fn negative_exit_code_renders_signed() {
    let args = vec!["/bin/x".to_string()];
    let err = finish_run(&args, ExitInfo { code: Some(-5) }).unwrap_err();
    assert_eq!(err.render(), "exec [\"/bin/x\"]: failed exit code -5");
}

#[test]
fn reader_suppresses_empty_lines() {
    assert_eq!(reader_record("O", ""), None);
    assert_eq!(reader_record("O", "\n"), None);
    assert_eq!(reader_record("E", "   \t \r\n"), None);
}

#[test]
fn reader_tags_and_trims_nonempty_lines() {
    assert_eq!(reader_record("O", "hello\n").unwrap(), "O| hello");
    assert_eq!(reader_record("E", "  warning: odd  \n").unwrap(), "E| warning: odd");
    assert_eq!(reader_record("O", "no newline").unwrap(), "O| no newline");
}

#[test]
fn wait_is_ready_only_after_both_eofs() {
    let mut st = drain_start(true, true);
    assert!(!ready_to_wait(&st));
    note_eof(&mut st, StreamEvent::OutEof);
    assert!(!ready_to_wait(&st));
    note_eof(&mut st, StreamEvent::ErrEof);
    assert!(ready_to_wait(&st));
}

#[test]
fn wait_is_ready_at_once_without_attached_streams() {
    let st = drain_start(false, false);
    assert!(ready_to_wait(&st));
    let mut one = drain_start(true, false);
    assert!(!ready_to_wait(&one));
    note_eof(&mut one, StreamEvent::OutEof);
    assert!(ready_to_wait(&one));
}

#[test]
fn trim_matches_str_trim() {
    for s in ["", "  ", "a", " a ", "\t x y \r\n", "\u{a0}z\u{a0}", "mixed \u{3000} end\u{3000}"] {
        assert_eq!(text::trim_str(s), s.trim());
    }
}

#[test]
fn split_lines_matches_str_lines() {
    for s in ["", "\n", "a", "a\n", "a\nb", "a\r\nb\n", "foo\r\nbar\n\nbaz\r", "x\n\n"] {
        let expected: Vec<String> = s.lines().map(|l| l.to_string()).collect();
        assert_eq!(text::split_lines(s), expected);
    }
}

#[test]
fn decimal_renderings_are_exact() {
    assert_eq!(text::u64_dec(0), "0");
    assert_eq!(text::u64_dec(7), "7");
    assert_eq!(text::u64_dec(1234567890), "1234567890");
    assert_eq!(text::i32_dec(0), "0");
    assert_eq!(text::i32_dec(-5), "-5");
    assert_eq!(text::i32_dec(i32::MIN), "-2147483648");
    assert_eq!(text::i32_dec(i32::MAX), "2147483647");
}

#[test]
fn list_rendering_quotes_and_joins() {
    assert_eq!(text::render_list(&Vec::new()), "[]");
    assert_eq!(text::render_list(&vec!["a".to_string()]), "[\"a\"]");
    assert_eq!(
        text::render_list(&vec!["a".to_string(), "b c".to_string()]),
        "[\"a\", \"b c\"]"
    );
}

#[test]
fn sanitize_with_empty_ambient_keeps_only_overrides() {
    let ambient: Vec<(String, String)> = Vec::new();
    let ov = pairs(&[("A", "1")]);
    assert_eq!(sanitize_env(&ambient, Some(&ov)), pairs(&[("A", "1")]));
    assert_eq!(sanitize_env(&ambient, None), Vec::new());
}

#[test]
fn largest_decimal_values_render() {
    assert_eq!(text::u64_dec(u64::MAX), "18446744073709551615");
}

#[test]
fn capture_failure_with_empty_stderr() {
    let raw = CapturedOutput {
        exit: ExitInfo { code: Some(1) },
        stdout: b"partial".to_vec(),
        stderr: Vec::new(),
    };
    let args = vec!["/bin/x".to_string()];
    let err = capture_outcome(&args, raw).unwrap_err();
    assert_eq!(err.render(), "exec [\"/bin/x\"]: failed \"\"");
}

use xlang::driver::{
    capture_command_output, compile_failed_result, decimal_u64, finished_result, poll_step,
    read_limited, result_from_xerror, OutputCapture, PollAction, RunSafeOptions,
    READ_CHUNK_BYTES,
};
use xlang::error::XError;

fn options(timeout_ms: u64, output_limit_bytes: usize) -> RunSafeOptions {
    RunSafeOptions { timeout_ms, output_limit_bytes }
}

#[test]
fn default_options_match_the_documented_limits() {
    let d = RunSafeOptions::default();
    assert_eq!(d.timeout_ms, 2000);
    assert_eq!(d.output_limit_bytes, 64 * 1024);
}

#[test]
fn capture_keeps_a_prefix_and_flags_truncation() {
    let c = capture_command_output(b"hello", 3);
    assert_eq!(c.text, "hel");
    assert!(c.truncated);
    let c = capture_command_output(b"hello", 5);
    assert_eq!(c.text, "hello");
    assert!(!c.truncated);
    let c = capture_command_output(b"", 0);
    assert_eq!(c.text, "");
    assert!(!c.truncated);
}

#[test]
fn capture_replaces_invalid_utf8() {
    let c = capture_command_output(&[0xff, b'a', b'b'], 10);
    assert_eq!(c.text, "\u{FFFD}ab");
    assert!(!c.truncated);
}

#[test]
fn chunked_capture_equals_whole_capture() {
    let mut cap = OutputCapture::new(4);
    cap.absorb(b"ab");
    cap.absorb(b"");
    cap.absorb(b"cdef");
    let out = cap.finish();
    assert_eq!(out.text, "abcd");
    assert!(out.truncated);
    let whole = capture_command_output(b"abcdef", 4);
    assert_eq!(out.text, whole.text);
    assert_eq!(out.truncated, whole.truncated);
}

#[test]
fn read_limited_spans_several_chunks() {
    let data = vec![b'z'; READ_CHUNK_BYTES * 2 + 100];
    let capped = read_limited(&data, READ_CHUNK_BYTES + 1);
    assert_eq!(capped.text.len(), READ_CHUNK_BYTES + 1);
    assert!(capped.truncated);
    let whole = read_limited(&data, data.len());
    assert_eq!(whole.text.len(), data.len());
    assert!(!whole.truncated);
}

#[test]
fn polling_decisions() {
    assert_eq!(poll_step(true, 5000, 10), PollAction::Finished);
    assert_eq!(poll_step(false, 10, 10), PollAction::Kill);
    assert_eq!(poll_step(false, 11, 10), PollAction::Kill);
    assert_eq!(poll_step(false, 9, 10), PollAction::Wait);
}

#[test]
fn timed_out_run_reports_the_limit() {
    let opts = options(150, 8);
    let r = finished_result(
        true,
        Some(0),
        capture_command_output(b"partial", 8),
        capture_command_output(b"", 8),
        151,
        &opts,
    );
    assert_eq!(r.status, "timeout");
    assert_eq!(r.exit_code, None);
    assert_eq!(r.stdout, "partial");
    assert_eq!(r.error.as_deref(), Some("program timed out after 150 ms"));
    assert_eq!(r.timeout_ms, 150);
    assert_eq!(r.output_limit_bytes, 8);
    assert_eq!(r.duration_ms, 151);
}

#[test]
fn finished_run_keeps_its_exit_code() {
    let opts = options(1000, 2);
    let r = finished_result(
        false,
        Some(3),
        capture_command_output(b"xyz", 2),
        capture_command_output(b"e", 2),
        7,
        &opts,
    );
    assert_eq!(r.status, "ok");
    assert_eq!(r.exit_code, Some(3));
    assert_eq!(r.stdout, "xy");
    assert!(r.stdout_truncated);
    assert_eq!(r.stderr, "e");
    assert!(!r.stderr_truncated);
    assert!(r.error.is_none());
}

#[test]
fn compiler_failure_names_the_exit_code() {
    let opts = options(1000, 3);
    let r = compile_failed_result(Some(-1), b"out", b"errors", 4, &opts);
    assert_eq!(r.status, "compile_error");
    assert_eq!(r.exit_code, Some(-1));
    assert_eq!(r.stderr, "err");
    assert!(r.stderr_truncated);
    assert_eq!(r.error.as_deref(), Some("C compiler failed with exit code Some(-1)"));
    let r = compile_failed_result(None, b"", b"", 4, &opts);
    assert_eq!(r.error.as_deref(), Some("C compiler failed with exit code None"));
}

#[test]
fn errors_before_the_run_get_their_status() {
    let opts = options(10, 10);
    let r = result_from_xerror(&XError::Parse("bad".to_string()), 2, &opts);
    assert_eq!(r.status, "check_error");
    assert_eq!(r.error.as_deref(), Some("parse error: bad"));
    assert_eq!(r.exit_code, None);
    let r = result_from_xerror(&XError::Codegen("nope".to_string()), 2, &opts);
    assert_eq!(r.status, "codegen_error");
    assert_eq!(r.error.as_deref(), Some("codegen error: nope"));
    let io = std::io::Error::new(std::io::ErrorKind::Other, "disk full");
    let r = result_from_xerror(&XError::Io(io), 2, &opts);
    assert_eq!(r.status, "error");
    assert_eq!(r.error.as_deref(), Some("io error: disk full"));
}

#[test]
fn error_descriptions() {
    assert_eq!(XError::Parse("m".to_string()).describe(), "parse error: m");
    assert_eq!(XError::Codegen("c".to_string()).describe(), "codegen error: c");
    let json = serde_json::from_str::<i32>("not json").unwrap_err();
    let text = XError::Json(json).describe();
    assert!(text.starts_with("json error: "), "{text}");
    assert!(text.len() > "json error: ".len());
}

#[test]
fn decimal_text_of_u64() {
    assert_eq!(decimal_u64(0), "0");
    assert_eq!(decimal_u64(907), "907");
    assert_eq!(decimal_u64(u64::MAX), "18446744073709551615");
}

use pushtime::message::{display_string, format_duration, message_text, ExitReport};
use pushtime::text::{i32_to_string, trim, trim_end, u64_to_string};

#[test]
fn display_with_args() {
    let args = vec!["hello".to_string(), "world".to_string()];
    assert_eq!(display_string("echo", &args), "echo hello world");
}

#[test]
fn display_without_args_has_no_trailing_space() {
    let args: Vec<String> = vec![];
    assert_eq!(display_string("ls", &args), "ls");
}

#[test]
fn display_trims_trailing_whitespace_only() {
    let args = vec!["a".to_string(), " ".to_string()];
    assert_eq!(display_string("cmd", &args), "cmd a");
}

#[test]
fn duration_seconds() {
    assert_eq!(format_duration(1_500_000_000), "1.50s");
}

#[test]
fn duration_rounds_half_up() {
    assert_eq!(format_duration(1_999_999_999), "2.00s");
}

#[test]
fn duration_milliseconds() {
    assert_eq!(format_duration(2_345_678), "2.35ms");
}

#[test]
fn duration_microseconds() {
    assert_eq!(format_duration(1_234), "1.23\u{b5}s");
}

#[test]
fn duration_nanoseconds() {
    assert_eq!(format_duration(999), "999.00ns");
}

#[test]
fn duration_zero() {
    assert_eq!(format_duration(0), "0.00ns");
}

#[test]
fn message_reports_exit_code_seven() {
    let report = ExitReport { code: Some(7) };
    let text = message_text("false", &report, 1_500_000_000);
    assert!(text.contains("7"));
    assert_eq!(
        text,
        "Command: false\nFinished with exit code: 7\nExecution time: 1.50s"
    );
}

#[test]
fn message_uses_sentinel_without_exit_code() {
    let report = ExitReport { code: None };
    let text = message_text("sleep 5", &report, 2_000_000);
    assert_eq!(
        text,
        "Command: sleep 5\nFinished with exit code: -1\nExecution time: 2.00ms"
    );
}

#[test]
fn number_rendering() {
    assert_eq!(u64_to_string(0), "0");
    assert_eq!(u64_to_string(1_234_567_890), "1234567890");
    assert_eq!(i32_to_string(-12), "-12");
    assert_eq!(i32_to_string(7), "7");
}

#[test]
fn trimming() {
    assert_eq!(trim("  a b \t"), "a b");
    assert_eq!(trim(""), "");
    assert_eq!(trim(" \t "), "");
    assert_eq!(trim_end("  a "), "  a");
}

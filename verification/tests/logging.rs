use phaselock::logger::{
    format_log_line, lines_after_rotation, needs_rotation, rotation_drop_count, LogBuffer,
    FLUSH_THRESHOLD, MAX_LOG_FILE_SIZE,
};

fn line(level: &str, message: &str) -> String {
    format_log_line("2026-01-01 00:00:00.000", level, Some("test"), message)
}

#[test]
fn test_buffer_does_not_flush_before_threshold() {
    let mut buf = LogBuffer::new();
    for i in 0..49 {
        assert!(buf.push(line("INFO", &format!("msg {i}")), false).is_none());
    }
    assert_eq!(buf.len(), 49);
}

#[test]
fn test_buffer_flushes_at_threshold() {
    let mut buf = LogBuffer::new();
    let mut flushed = None;
    for i in 0..FLUSH_THRESHOLD {
        flushed = buf.push(line("INFO", &format!("msg {i}")), false);
    }
    let written = flushed.expect("flush at threshold");
    assert_eq!(written.len(), FLUSH_THRESHOLD);
    assert_eq!(buf.len(), 0);
}

#[test]
fn test_error_triggers_immediate_flush() {
    let mut buf = LogBuffer::new();
    assert!(buf.push(line("INFO", "info 1"), false).is_none());
    assert!(buf.push(line("INFO", "info 2"), false).is_none());

    let lines = buf.push(line("ERROR", "something broke"), true).expect("flush on error");
    assert_eq!(lines.len(), 3);
    assert!(lines[2].contains("ERROR"));
    assert!(lines[2].contains("something broke"));
}

#[test]
fn test_log_line_format() {
    let mut buf = LogBuffer::new();
    buf.push(line("WARN", "test warning"), false);
    let lines = buf.drain();
    let l = &lines[0];
    assert!(l.starts_with("[2026-01-01 00:00:00.000]"));
    assert!(l.contains("[WARN]"));
    assert!(l.contains("[test]"));
    assert!(l.contains("test warning"));
}

#[test]
fn test_rotation_truncates_file() {
    let lines: Vec<String> = (0..100)
        .map(|i| format!("[2026-01-01 00:00:00.000] [INFO] [test] line {i:0>80}"))
        .collect();
    let size: u64 = lines.iter().map(|l| l.len() as u64 + 1).sum();
    assert!(needs_rotation(size, 1));
    let kept = lines_after_rotation(&lines);
    assert_eq!(kept.len(), 75);
    assert_eq!(kept[0], lines[25]);
}

#[test]
fn test_no_rotation_under_limit() {
    assert!(!needs_rotation("small log\n".len() as u64, 1_000_000));
}

#[test]
fn test_manual_flush() {
    let mut buf = LogBuffer::new();
    buf.push(line("INFO", "buffered"), false);
    let lines = buf.drain();
    assert!(lines[0].contains("buffered"));
    assert_eq!(buf.len(), 0);
}

// ── Further cases ───────────────────────────────────────────────────────────

#[test]
fn log_line_exact_text() {
    assert_eq!(format_log_line("T", "INFO", Some("m"), "hello"), "[T] [INFO] [m] hello");
    assert_eq!(format_log_line("T", "DEBUG", None, ""), "[T] [DEBUG] [unknown] ");
}

#[test]
fn flushed_lines_keep_order() {
    let mut buf = LogBuffer::new();
    let mut written: Vec<String> = Vec::new();
    for i in 0..120 {
        if let Some(v) = buf.push(format!("{i}"), i % 37 == 0) {
            written.extend(v);
        }
    }
    written.extend(buf.drain());
    let expected: Vec<String> = (0..120).map(|i| format!("{i}")).collect();
    assert_eq!(written, expected);
}

#[test]
fn rotation_counts() {
    assert_eq!(rotation_drop_count(0), 0);
    assert_eq!(rotation_drop_count(3), 0);
    assert_eq!(rotation_drop_count(7), 1);
    assert_eq!(rotation_drop_count(100), 25);
    assert!(!needs_rotation(MAX_LOG_FILE_SIZE, MAX_LOG_FILE_SIZE));
    assert!(needs_rotation(MAX_LOG_FILE_SIZE + 1, MAX_LOG_FILE_SIZE));
}

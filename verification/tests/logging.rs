use ezstreamer_core::logging::{log_file_name, log_line, needs_rotation, rotated_name, MAX_LOG_BYTES};

#[test]
fn daily_file_name_and_rotation_name() {
    assert_eq!(log_file_name("2026-09-10"), "ezStreamer-2026-09-10.log");
    assert_eq!(rotated_name("ezStreamer-2026-09-10.log"), "ezStreamer-2026-09-10.log.old");
}

#[test]
fn rotation_starts_above_ten_megabytes() {
    assert_eq!(MAX_LOG_BYTES, 10 * 1024 * 1024);
    assert!(!needs_rotation(MAX_LOG_BYTES));
    assert!(needs_rotation(MAX_LOG_BYTES + 1));
    assert!(!needs_rotation(0));
}

#[test]
fn line_format() {
    assert_eq!(
        log_line("2026-09-10T12:00:00.000+0900", "info", "hello"),
        "[2026-09-10T12:00:00.000+0900] [info] hello\n"
    );
}

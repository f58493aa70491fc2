use zmanager::display::{
    format_bytes_with_commas, format_eta, format_size, format_speed, truncate_path, CrashDump,
    ConflictResolution, Pane, StatusBar, TransferStatus,
};

#[test]
fn pane_toggle() {
    assert_eq!(Pane::Left.toggle(), Pane::Right);
    assert_eq!(Pane::Right.toggle(), Pane::Left);
}

#[test]
fn pane_default_is_left() {
    assert_eq!(Pane::default(), Pane::Left);
}

#[test]
fn status_bar_format_size_bytes() {
    assert_eq!(StatusBar::format_size(100), "100 B");
}

#[test]
fn format_size_kb() {
    assert_eq!(StatusBar::format_size(2048), "2.0 KB");
}

#[test]
fn format_size_mb() {
    assert_eq!(StatusBar::format_size(5 * 1024 * 1024), "5.00 MB");
}

#[test]
fn format_size_gb() {
    assert_eq!(StatusBar::format_size(3 * 1024 * 1024 * 1024), "3.00 GB");
}

#[test]
fn status_bar_with_selection() {
    let bar = StatusBar::new(100, 5, 1024 * 1024);
    assert_eq!(bar.selected_count, 5);
}

#[test]
fn format_speed_bytes() {
    assert_eq!(format_speed(512), "512 B/s");
}

#[test]
fn format_speed_kilobytes() {
    assert_eq!(format_speed(1024), "1.0 KB/s");
    assert_eq!(format_speed(2048), "2.0 KB/s");
}

#[test]
fn format_speed_megabytes() {
    assert_eq!(format_speed(1024 * 1024), "1.0 MB/s");
    assert_eq!(format_speed(5 * 1024 * 1024), "5.0 MB/s");
}

#[test]
fn format_speed_gigabytes() {
    assert_eq!(format_speed(1024 * 1024 * 1024), "1.0 GB/s");
}

#[test]
fn format_eta_seconds() {
    assert_eq!(format_eta(30), "30s");
}

#[test]
fn format_eta_minutes() {
    assert_eq!(format_eta(90), "1m 30s");
    assert_eq!(format_eta(120), "2m 00s");
}

#[test]
fn format_eta_hours() {
    assert_eq!(format_eta(3661), "1h 01m");
}

#[test]
fn transfer_status_format() {
    let status = TransferStatus::new(2, 3, 1);
    assert!(status.format().contains("2▶"));
    assert!(status.format().contains("3✓"));
    assert!(status.format().contains("1✗"));
}

#[test]
fn transfer_status_empty() {
    let status = TransferStatus::new(0, 0, 0);
    assert_eq!(status.format(), "");
}

#[test]
fn format_size_display() {
    assert_eq!(format_size(500), "500 B");
    assert_eq!(format_size(1024), "1.0 KB");
    assert_eq!(format_size(1024 * 1024 * 100), "100.0 MB");
    assert_eq!(format_size(1024 * 1024 * 1024 * 50), "50.0 GB");
}

#[test]
fn format_bytes_commas() {
    assert_eq!(format_bytes_with_commas(100), "100");
    assert_eq!(format_bytes_with_commas(1000), "1,000");
    assert_eq!(format_bytes_with_commas(1000000), "1,000,000");
    assert_eq!(format_bytes_with_commas(1234567890), "1,234,567,890");
}

#[test]
fn truncate_long_path() {
    assert_eq!(truncate_path("short", 20), "short");
    assert_eq!(
        truncate_path("C:\\very\\long\\path\\to\\file", 15),
        "...path\\to\\file"
    );
}

#[test]
fn resolution_hotkeys() {
    assert_eq!(ConflictResolution::Overwrite.hotkey(), 'o');
    assert_eq!(ConflictResolution::Skip.hotkey(), 's');
    assert_eq!(ConflictResolution::Cancel.hotkey(), 'c');
}

#[test]
fn test_crash_dump_summary() {
    let dump = CrashDump {
        path: "/tmp/crash.crash".to_string(),
        timestamp: "2024-01-15 10:30:00".to_string(),
        message: "assertion failed".to_string(),
        location: "main.rs:42:1".to_string(),
        backtrace: String::new(),
    };

    let summary = dump.summary();
    assert!(summary.contains("2024-01-15"));
    assert!(summary.contains("assertion failed"));
    assert!(summary.contains("main.rs:42:1"));
}

use zmanager::copy::{map_copy_error, precopy_check};
use zmanager::error::ZError;
use zmanager::conflict::{
    Conflict, ConflictPolicy, ConflictResolution, ConflictResolver, ConflictSettings,
};
use zmanager::plan::{RawNode, TransferStats};
use zmanager::report::{
    format_bytes, ReportBuilder, TransferItemResult, TransferOperation, TransferStatus,
    TransferSummary,
};
use zmanager::transfer_job::{format_duration, format_speed, JobId, JobKind, JobState};

#[test]
fn test_job_id_display() {
    let id = JobId::new(42);
    assert_eq!(id.display(), "Job#42");
}

#[test]
fn test_job_kind_labels() {
    assert_eq!(JobKind::Copy.label(), "Copying");
    assert_eq!(JobKind::Move.label(), "Moving");
    assert_eq!(JobKind::Delete.label(), "Deleting");

    assert_eq!(JobKind::Copy.completed_label(), "Copied");
}

#[test]
fn test_job_state_terminal() {
    assert!(!JobState::Pending.is_terminal());
    assert!(!JobState::Running.is_terminal());
    assert!(!JobState::Paused.is_terminal());
    assert!(JobState::Completed.is_terminal());
    assert!(JobState::Failed.is_terminal());
    assert!(JobState::Cancelled.is_terminal());
}

#[test]
fn test_job_state_can_pause() {
    assert!(JobState::Running.can_pause());
    assert!(!JobState::Paused.can_pause());
    assert!(!JobState::Pending.can_pause());
}

#[test]
fn test_job_state_can_resume() {
    assert!(JobState::Paused.can_resume());
    assert!(!JobState::Running.can_resume());
}

#[test]
fn test_format_speed() {
    assert_eq!(format_speed(500), "500 B/s");
    assert_eq!(format_speed(1024), "1.00 KB/s");
    assert_eq!(format_speed(1048576), "1.00 MB/s");
    assert_eq!(format_speed(1073741824), "1.00 GB/s");
}

#[test]
fn test_format_duration() {
    assert_eq!(format_duration(30), "30s");
    assert_eq!(format_duration(90), "1m 30s");
    assert_eq!(format_duration(3600), "1h");
    assert_eq!(format_duration(3660), "1h 1m");
}

#[test]
fn test_policy_labels() {
    assert_eq!(ConflictPolicy::Overwrite.label(), "Overwrite");
    assert_eq!(ConflictPolicy::Skip.label(), "Skip");
    assert_eq!(ConflictPolicy::Rename.label(), "Rename");
    assert!(!ConflictPolicy::KeepNewer.description().is_empty());
}

fn make_conflict(source_size: u64, dest_size: u64) -> Conflict {
    Conflict {
        source: "C:\\src.txt".to_string(),
        destination: "C:\\dst.txt".to_string(),
        source_size,
        dest_size,
        source_modified: None,
        dest_modified: None,
        is_dir: false,
    }
}

#[test]
fn resolver_keep_larger() {
    // a larger source overwrites; a smaller one is skipped
    let resolver = ConflictResolver::with_settings(ConflictSettings {
        file_policy: ConflictPolicy::KeepLarger,
        dir_policy: ConflictPolicy::Overwrite,
        apply_to_all: false,
    });

    let larger = make_conflict(1500, 500);
    assert_eq!(
        resolver.resolve(&larger),
        Some(ConflictResolution::Overwrite)
    );

    let smaller = make_conflict(500, 1500);
    assert_eq!(resolver.resolve(&smaller), Some(ConflictResolution::Skip));
}

#[test]
fn resolver_keep_newer() {
    let resolver = ConflictResolver::with_settings(ConflictSettings {
        file_policy: ConflictPolicy::KeepNewer,
        dir_policy: ConflictPolicy::Overwrite,
        apply_to_all: false,
    });

    let mut newer = make_conflict(10, 10);
    newer.source_modified = Some(2000);
    newer.dest_modified = Some(1000);
    assert_eq!(resolver.resolve(&newer), Some(ConflictResolution::Overwrite));

    let mut older = make_conflict(10, 10);
    older.source_modified = Some(1000);
    older.dest_modified = Some(2000);
    assert_eq!(resolver.resolve(&older), Some(ConflictResolution::Skip));

    let unknown = make_conflict(10, 10);
    assert_eq!(resolver.resolve(&unknown), None);
}

#[test]
fn resolver_default_asks_for_files() {
    let resolver = ConflictResolver::new();
    assert_eq!(resolver.resolve(&make_conflict(1, 1)), None);
}

#[test]
fn resolver_apply_to_all_caches() {
    let mut resolver = ConflictResolver::new();
    resolver.apply_to_all(ConflictResolution::Skip);
    assert_eq!(
        resolver.resolve(&make_conflict(1, 1)),
        Some(ConflictResolution::Skip)
    );
    assert_eq!(
        resolver.resolve(&make_conflict(9, 1)),
        Some(ConflictResolution::Skip)
    );
    resolver.reset_apply_to_all();
    assert_eq!(resolver.resolve(&make_conflict(1, 1)), None);
}

#[test]
fn rename_generator_picks_next_free_name() {
    // the destination already holds the name and its first rename
    let existing = vec![
        "C:\\dest\\notes.txt".to_string(),
        "C:\\dest\\notes (1).txt".to_string(),
    ];
    let renamed = zmanager::conflict::generate_rename_path("C:\\dest\\notes.txt", &existing, 0);
    assert_eq!(renamed, "C:\\dest\\notes (2).txt");
}

#[test]
fn rename_generator_without_extension() {
    let existing = vec!["C:\\dest\\myfile".to_string()];
    let renamed = zmanager::conflict::generate_rename_path("C:\\dest\\myfile", &existing, 0);
    assert_eq!(renamed, "C:\\dest\\myfile (1)");
}

#[test]
fn test_transfer_stats() {
    let stats = TransferStats {
        total_files: 10,
        total_dirs: 5,
        total_bytes: 1000,
        conflicts: 2,
        skipped: 0,
    };

    assert_eq!(stats.total_items(), 15);
}

#[test]
fn plan_orders_directories_before_files() {
    let nodes = vec![
        RawNode {
            root: "C:\\src".to_string(),
            path: "C:\\src\\deep\\file.txt".to_string(),
            is_dir: false,
            size: 10,
            depth: 2,
            dest_exists: false,
        },
        RawNode {
            root: "C:\\src".to_string(),
            path: "C:\\src\\deep".to_string(),
            is_dir: true,
            size: 0,
            depth: 1,
            dest_exists: false,
        },
        RawNode {
            root: "C:\\src".to_string(),
            path: "C:\\src".to_string(),
            is_dir: true,
            size: 0,
            depth: 0,
            dest_exists: true,
        },
    ];
    let plan = zmanager::plan::build_plan(
        vec!["C:\\src".to_string()],
        nodes,
        "C:\\dst".to_string(),
        false,
    )
    .unwrap();

    assert_eq!(plan.stats.total_files, 1);
    assert_eq!(plan.stats.total_dirs, 2);
    assert_eq!(plan.stats.total_bytes, 10);
    assert_eq!(plan.stats.conflicts, 1);
    assert!(plan.items[0].is_dir);
    assert_eq!(plan.items[0].depth, 0);
    assert!(plan.items[1].is_dir);
    assert_eq!(plan.items[1].depth, 1);
    assert!(!plan.items[2].is_dir);
    // the top-level source directory's name sits under the destination
    assert_eq!(plan.items[0].destination, "C:\\dst\\src");
    assert_eq!(plan.items[2].destination, "C:\\dst\\src\\deep\\file.txt");
    assert!(plan.has_conflicts());
}

#[test]
fn plan_rejects_empty_sources() {
    let r = zmanager::plan::build_plan(Vec::new(), Vec::new(), "C:\\dst".to_string(), false);
    assert!(matches!(r, Err(ZError::Internal { .. })));
}

#[test]
fn test_transfer_status_labels() {
    assert_eq!(TransferStatus::Success.label(), "Success");
    assert_eq!(TransferStatus::Skipped.label(), "Skipped");
    assert_eq!(TransferStatus::Failed.label(), "Failed");
}

#[test]
fn test_transfer_status_symbols() {
    assert_eq!(TransferStatus::Success.symbol(), "✓");
    assert_eq!(TransferStatus::Skipped.symbol(), "○");
    assert_eq!(TransferStatus::Failed.symbol(), "✗");
}

#[test]
fn test_item_result_success() {
    let result =
        TransferItemResult::success("src.txt".to_string(), "dst.txt".to_string(), 1000);

    assert!(result.is_success());
    assert!(!result.is_failed());
    assert!(!result.is_directory);
    assert_eq!(result.size_bytes, 1000);
}

#[test]
fn test_item_result_dir() {
    let result = TransferItemResult::success_dir("src_dir".to_string(), "dst_dir".to_string());

    assert!(result.is_success());
    assert!(result.is_directory);
    assert_eq!(result.size_bytes, 0);
}

#[test]
fn test_item_result_failed() {
    let result = TransferItemResult::failed(
        "src.txt".to_string(),
        "dst.txt".to_string(),
        "Access denied".to_string(),
    );

    assert!(result.is_failed());
    assert_eq!(result.reason.as_deref(), Some("Access denied"));
}

#[test]
fn test_summary_complete_success() {
    let summary = TransferSummary {
        total_items: 10,
        succeeded: 10,
        skipped: 0,
        failed: 0,
        bytes_transferred: 0,
        duration_ms: 0,
        directories_created: 0,
        files_copied: 0,
    };

    assert!(summary.is_complete_success());
}

#[test]
fn test_summary_speed() {
    let summary = TransferSummary {
        total_items: 0,
        succeeded: 0,
        skipped: 0,
        failed: 0,
        bytes_transferred: 1_000_000,
        duration_ms: 1000,
        directories_created: 0,
        files_copied: 0,
    };

    assert_eq!(summary.average_speed(), 1_000_000);
}

#[test]
fn test_summary_duration_display() {
    let mk = |duration_ms: u64| TransferSummary {
        total_items: 0,
        succeeded: 0,
        skipped: 0,
        failed: 0,
        bytes_transferred: 0,
        duration_ms,
        directories_created: 0,
        files_copied: 0,
    };
    assert_eq!(mk(500).duration_display(), "500ms");
    assert_eq!(mk(2500).duration_display(), "2.500s");
    assert_eq!(mk(65000).duration_display(), "1m 5s");
    assert_eq!(mk(3725000).duration_display(), "1h 2m 5s");
}

#[test]
fn test_report_builder() {
    let mut builder = ReportBuilder::new(zmanager::job::JobId(7), TransferOperation::Copy, 0);
    builder.add_item(TransferItemResult::success(
        "a.txt".to_string(),
        "b.txt".to_string(),
        100,
    ));
    builder.add_item(TransferItemResult::failed(
        "c.txt".to_string(),
        "d.txt".to_string(),
        "Error".to_string(),
    ));

    let report = builder.build(0);

    assert_eq!(report.summary.total_items, 2);
    assert_eq!(report.summary.succeeded, 1);
    assert_eq!(report.summary.failed, 1);
    assert_eq!(report.summary.bytes_transferred, 100);
    // every item counted exactly once
    assert_eq!(
        report.summary.total_items,
        report.summary.succeeded + report.summary.skipped + report.summary.failed
    );
}

#[test]
fn test_report_text_export() {
    let mut builder = ReportBuilder::new(zmanager::job::JobId(8), TransferOperation::Copy, 0);
    builder.add_item(TransferItemResult::success(
        "src".to_string(),
        "dst".to_string(),
        1000,
    ));
    builder.add_item(TransferItemResult::failed(
        "bad".to_string(),
        "fail".to_string(),
        "Permission denied".to_string(),
    ));
    let report = builder.build(0);

    let text = report.to_text();
    assert!(text.contains("=== Copy Report ==="));
    assert!(text.contains("Succeeded: 1"));
    assert!(text.contains("Failed: 1"));
    assert!(text.contains("Permission denied"));
}

#[test]
fn report_test_format_bytes() {
    assert_eq!(format_bytes(500), "500 B");
    assert_eq!(format_bytes(1500), "1.46 KB");
    assert_eq!(format_bytes(1_500_000), "1.43 MB");
    assert_eq!(format_bytes(1_500_000_000), "1.40 GB");
    assert_eq!(format_bytes(1_500_000_000_000), "1.36 TB");
}

#[test]
fn test_operation_labels() {
    assert_eq!(TransferOperation::Copy.label(), "Copy");
    assert_eq!(TransferOperation::Move.label(), "Move");
}

#[test]
fn folder_report_counts_outcomes() {
    let mut report = zmanager::folder::TransferReport::new();
    report.record(zmanager::folder::ItemResult::Success {
        source: "a".to_string(),
        destination: "b".to_string(),
        bytes: 40,
    });
    report.record(zmanager::folder::ItemResult::Skipped {
        source: "c".to_string(),
        destination: "d".to_string(),
        reason: "exists".to_string(),
    });
    report.record(zmanager::folder::ItemResult::Failed {
        source: "e".to_string(),
        destination: "f".to_string(),
        error: "denied".to_string(),
    });
    assert_eq!(report.succeeded, 1);
    assert_eq!(report.skipped, 1);
    assert_eq!(report.failed, 1);
    assert_eq!(report.bytes_transferred, 40);
    assert!(!report.is_complete_success());
    assert!(report.has_transfers());
}

#[test]
fn deletion_order_is_children_first() {
    let items = vec![
        zmanager::plan::TransferItem::new("C:\\s".to_string(), "C:\\d".to_string(), true, 0, 0, false),
        zmanager::plan::TransferItem::new(
            "C:\\s\\x".to_string(),
            "C:\\d\\x".to_string(),
            true,
            0,
            1,
            false,
        ),
        zmanager::plan::TransferItem::new(
            "C:\\s\\x\\f".to_string(),
            "C:\\d\\x\\f".to_string(),
            false,
            3,
            2,
            false,
        ),
    ];
    let ordered = zmanager::folder::deletion_order(items);
    assert!(!ordered[0].is_dir);
    assert!(ordered[1].is_dir && ordered[1].depth == 1);
    assert!(ordered[2].is_dir && ordered[2].depth == 0);
}

#[test]
fn copy_error_codes_map_to_variants() {
    assert!(matches!(
        map_copy_error(0x80070005, String::new(), "s", "d"),
        ZError::PermissionDenied { .. }
    ));
    assert!(matches!(
        map_copy_error(0x80070002, String::new(), "s", "d"),
        ZError::NotFound { .. }
    ));
    assert!(matches!(
        map_copy_error(0x80070050, String::new(), "s", "d"),
        ZError::AlreadyExists { .. }
    ));
    assert!(matches!(
        map_copy_error(0x80070070, String::new(), "s", "d"),
        ZError::TransferFailed { .. }
    ));
    assert!(matches!(
        map_copy_error(0xDEAD, "boom".to_string(), "s", "d"),
        ZError::Windows { code: 0xDEAD, .. }
    ));
}

#[test]
fn precopy_check_rejects_what_the_copy_would() {
    assert!(matches!(
        precopy_check(false, false, false, false, "s", "d"),
        Some(ZError::NotFound { .. })
    ));
    assert!(matches!(
        precopy_check(true, false, false, false, "s", "d"),
        Some(ZError::NotAFile { .. })
    ));
    assert!(matches!(
        precopy_check(true, true, true, false, "s", "d"),
        Some(ZError::AlreadyExists { .. })
    ));
    assert!(precopy_check(true, true, true, true, "s", "d").is_none());
    assert!(precopy_check(true, true, false, false, "s", "d").is_none());
}

#[test]
fn report_json_uses_the_stable_schema() {
    let mut builder = ReportBuilder::new(zmanager::job::JobId(9), TransferOperation::Move, 1200);
    builder.add_item(TransferItemResult::success(
        "C:\\a \"quoted\"".to_string(),
        "C:\\b".to_string(),
        50,
    ));
    let report = builder.build(2200);

    let json = report.to_json();
    assert!(json.contains("\"operation\": \"move\""));
    assert!(json.contains("\"succeeded\": 1"));
    assert!(json.contains("\"duration_ms\": 1000"));
    // backslashes and quotes in paths are escaped on the way out
    assert!(json.contains("C:\\\\a \\\"quoted\\\""));
    assert!(json.contains("\"status\": \"success\""));
    // the persisted form is pretty-printed, two spaces per level
    assert!(json.starts_with("{\n  \"job_id\": 9,\n  \"operation\""));
    assert!(json.ends_with("\n    }\n  ]\n}"));

    assert_eq!(
        zmanager::report::report_filename(TransferOperation::Move, 1200),
        "move_1200.json"
    );
}

use zmanager::clipboard::{encode_effect, encode_hdrop, parse_effect, parse_hdrop, ClipboardContent, DropEffect};
use zmanager::config::{Config, Favorite};
use zmanager::drives::{format_bytes, DriveInfo, DriveType};
use zmanager::paths::{is_long_path, same_volume, to_long_path};
use zmanager::properties::{guess_mime_type, Properties};
use zmanager::watcher::{Debouncer, WatchEventKind, WatcherConfig, WatchList, DEFAULT_DEBOUNCE_MS};

#[test]
fn test_drop_effect_values() {
    assert_eq!(DropEffect::Copy.value(), 1);
    assert_eq!(DropEffect::Move.value(), 2);
}

#[test]
fn test_drop_effect_from_value() {
    assert_eq!(DropEffect::from_value(1), Some(DropEffect::Copy));
    assert_eq!(DropEffect::from_value(2), Some(DropEffect::Move));
    assert_eq!(DropEffect::from_value(0), None);
    assert_eq!(DropEffect::from_value(99), None);
}

#[test]
fn test_clipboard_content() {
    let content = ClipboardContent {
        paths: vec!["test.txt".to_string()],
        effect: DropEffect::Copy,
    };

    assert!(content.has_files());
    assert!(content.is_copy());
    assert!(!content.is_cut());

    let cut_content = ClipboardContent {
        paths: vec!["test.txt".to_string()],
        effect: DropEffect::Move,
    };

    assert!(cut_content.is_cut());
    assert!(!cut_content.is_copy());
}

#[test]
fn test_empty_clipboard_content() {
    let content = ClipboardContent {
        paths: Vec::new(),
        effect: DropEffect::Copy,
    };

    assert!(!content.has_files());
}

#[test]
fn clipboard_payload_round_trips() {
    // write then read, bit for bit: the exact paths come back, cut stays cut
    let paths = vec!["C:\\a.txt".to_string(), "C:\\b.txt".to_string()];
    let payload = encode_hdrop(&paths);
    // header: offset 20, wide flag set
    assert_eq!(payload[0], 20);
    assert_eq!(payload[8], 1);
    let back = parse_hdrop(&payload).expect("payload parses");
    assert_eq!(back, paths);

    let word = encode_effect(DropEffect::Move);
    assert_eq!(word, vec![2, 0, 0, 0]);
    assert_eq!(parse_effect(&word), Some(DropEffect::Move));
    let word = encode_effect(DropEffect::Copy);
    assert_eq!(parse_effect(&word), Some(DropEffect::Copy));
}

#[test]
fn clipboard_rejects_truncated_payload() {
    let paths = vec!["C:\\a.txt".to_string()];
    let mut payload = encode_hdrop(&paths);
    payload.pop();
    assert!(parse_hdrop(&payload).is_none());
    assert_eq!(parse_effect(&vec![1u8, 0u8]), None);
}

#[test]
fn test_watch_event_kind_labels() {
    assert_eq!(WatchEventKind::Created.label(), "Created");
    assert_eq!(WatchEventKind::Modified.label(), "Modified");
    assert_eq!(WatchEventKind::Deleted.label(), "Deleted");
    assert_eq!(WatchEventKind::Renamed.label(), "Renamed");
    assert_eq!(WatchEventKind::Changed.label(), "Changed");
}

#[test]
fn test_watcher_config_default() {
    let config = WatcherConfig::default();
    assert_eq!(config.debounce_ms, DEFAULT_DEBOUNCE_MS);
    assert_eq!(config.max_watched_dirs, 10);
    assert!(!config.recursive);
}

#[test]
fn watch_list_enforces_the_limit() {
    let mut list = WatchList::new(2);
    assert!(list.watch("/a").is_ok());
    assert!(list.watch("/b").is_ok());
    assert!(list.watch("/a").is_ok()); // already watched: no-op
    assert!(list.watch("/c").is_err()); // over the limit
    assert!(list.is_watching("/a"));
    assert_eq!(list.watched_dirs().len(), 2);
    list.unwatch("/a");
    assert!(!list.is_watching("/a"));
    assert!(list.watch("/c").is_ok());
}

#[test]
fn debouncer_groups_and_flushes() {
    let mut d = Debouncer::new();
    d.record("/dir", "/dir/a.txt", WatchEventKind::Modified, 1000);
    d.record("/dir", "/dir/b.txt", WatchEventKind::Created, 1050);
    d.record("/other", "/other/x", WatchEventKind::Modified, 1300);

    // nothing has aged yet
    let early = d.flush_ready(1100, 300);
    assert!(early.is_empty());

    // the first group has aged; a non-Modified kind won over Modified
    let events = d.flush_ready(1400, 300);
    assert_eq!(events.len(), 1);
    assert_eq!(events[0].directory, "/dir");
    assert_eq!(events[0].kind, WatchEventKind::Created);
    assert_eq!(events[0].paths.len(), 2);

    let late = d.flush_ready(1700, 300);
    assert_eq!(late.len(), 1);
    assert_eq!(late[0].directory, "/other");
}

#[test]
fn test_favorite_reorder() {
    let mut config = Config::new();

    config.add_favorite(Favorite::new("A", "/a"));
    config.add_favorite(Favorite::new("B", "/b"));
    config.add_favorite(Favorite::new("C", "/c"));

    config.reorder_favorites(&vec!["c".to_string(), "a".to_string(), "b".to_string()]);

    assert_eq!(config.favorites[0].id, "c");
    assert_eq!(config.favorites[1].id, "a");
    assert_eq!(config.favorites[2].id, "b");
}

#[test]
fn test_validation() {
    let mut config = Config::new();
    assert!(config.validate().is_ok());

    config.general.max_history = 0;
    assert!(config.validate().is_err());
}

#[test]
fn favorites_skip_duplicates() {
    let mut config = Config::new();
    config.add_favorite(Favorite::new("Home", "/home/user"));
    config.add_favorite(Favorite::new("Home Again", "/HOME/USER"));
    assert_eq!(config.favorites.len(), 1);
    assert!(config.get_favorite("home").is_some());
    assert!(config.get_favorite("nonexistent").is_none());
    assert!(config.remove_favorite("home"));
    assert!(!config.remove_favorite("home"));
}

#[test]
fn test_drive_type_descriptions() {
    assert_eq!(DriveType::Fixed.description(), "Local Disk");
    assert_eq!(DriveType::Removable.description(), "Removable");
    assert_eq!(DriveType::Network.description(), "Network Drive");
}

#[test]
fn test_drive_info_display_name() {
    let drive = DriveInfo {
        path: "C:\\".to_string(),
        label: "Windows".to_string(),
        drive_type: DriveType::Fixed,
        file_system: Some("NTFS".to_string()),
        total_bytes: Some(500 * 1024 * 1024 * 1024),
        free_bytes: Some(100 * 1024 * 1024 * 1024),
        is_ready: true,
    };

    assert_eq!(drive.display_name(), "Windows (C:)");

    let unlabeled = DriveInfo {
        path: "D:\\".to_string(),
        label: String::new(),
        drive_type: DriveType::Fixed,
        file_system: None,
        total_bytes: None,
        free_bytes: None,
        is_ready: false,
    };

    assert_eq!(unlabeled.display_name(), "Local Disk (D:)");
}

#[test]
fn drives_test_format_bytes() {
    assert_eq!(format_bytes(0), "0 B");
    assert_eq!(format_bytes(500), "500 B");
    assert_eq!(format_bytes(1024), "1.00 KB");
    assert_eq!(format_bytes(1024 * 1024), "1.00 MB");
    assert_eq!(format_bytes(1024 * 1024 * 1024), "1.00 GB");
    assert_eq!(format_bytes(1024 * 1024 * 1024 * 1024), "1.00 TB");
}

#[test]
fn drive_usage_subtracts_free_space() {
    let drive = DriveInfo {
        path: "C:\\".to_string(),
        label: "Test".to_string(),
        drive_type: DriveType::Fixed,
        file_system: Some("NTFS".to_string()),
        total_bytes: Some(1000),
        free_bytes: Some(400),
        is_ready: true,
    };

    assert_eq!(drive.used_bytes(), Some(600));
}

#[test]
fn test_long_path_conversion() {
    let short = "C:\\Users\\test";
    assert!(!is_long_path(short));

    let long_path = to_long_path(short);
    assert!(long_path.starts_with("\\\\?\\"));

    let already = to_long_path("\\\\?\\C:\\Users\\test");
    assert_eq!(already, "\\\\?\\C:\\Users\\test");

    let relative = to_long_path("relative\\path");
    assert_eq!(relative, "relative\\path");
}

#[test]
fn same_volume_compares_roots() {
    assert!(same_volume("C:\\a\\b", "c:\\x"));
    assert!(!same_volume("C:\\a", "D:\\a"));
    assert!(same_volume("\\\\server\\share\\a", "\\\\SERVER\\share\\b"));
    assert!(!same_volume("\\\\server\\share", "\\\\server\\other"));
}

#[test]
fn test_guess_mime_type() {
    assert_eq!(guess_mime_type("txt").as_deref(), Some("text/plain"));
    assert_eq!(guess_mime_type("PNG").as_deref(), Some("image/png"));
    assert_eq!(guess_mime_type("rs").as_deref(), Some("text/x-rust"));
    assert!(guess_mime_type("xyz").is_none());
}

#[test]
fn properties_test_format_size() {
    assert_eq!(zmanager::properties::format_size(0), "0 bytes");
    assert_eq!(zmanager::properties::format_size(100), "100 bytes");
    assert_eq!(zmanager::properties::format_size(1024), "1.00 KB");
    assert_eq!(zmanager::properties::format_size(1024 * 1024), "1.00 MB");
    assert_eq!(
        zmanager::properties::format_size(1024 * 1024 * 1024),
        "1.00 GB"
    );
}

#[test]
fn test_properties_display() {
    let props = Properties {
        path: "test.txt".to_string(),
        name: "test.txt".to_string(),
        kind: zmanager::entry::EntryKind::File,
        size: Some(1024 * 1024 * 5),
        file_count: None,
        folder_count: None,
        created: None,
        modified: None,
        accessed: None,
        readonly: true,
        hidden: true,
        system: false,
        archive: true,
        link_target: None,
        extension: Some("txt".to_string()),
        mime_type: Some("text/plain".to_string()),
    };

    assert_eq!(props.size_display(), "5.00 MB");
    assert_eq!(props.attributes_display(), "RHA");
}

#[test]
fn folder_stats_summary() {
    let stats = zmanager::properties::FolderStats {
        total_size: 60,
        file_count: 3,
        folder_count: 1,
    };
    assert_eq!(stats.summary(), "60 bytes, 3 files, 1 folders");
}

#[test]
fn debouncer_deduplicates_paths_and_keeps_upgraded_kind() {
    let mut d = Debouncer::new();
    d.record("/dir", "/dir/a.txt", WatchEventKind::Deleted, 1000);
    d.record("/dir", "/dir/a.txt", WatchEventKind::Modified, 1010);
    let events = d.flush_ready(2000, 300);
    assert_eq!(events.len(), 1);
    // the same path recorded twice is reported once, and the later
    // Modified did not downgrade the Deleted kind
    assert_eq!(events[0].paths, vec!["/dir/a.txt".to_string()]);
    assert_eq!(events[0].kind, WatchEventKind::Deleted);
}

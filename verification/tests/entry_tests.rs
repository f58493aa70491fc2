use zmanager::entry::{format_size, DirListing, EntryKind, EntryMeta};
use zmanager::filter::FilterSpec;
use zmanager::listing::list_from_entries;
use zmanager::sort::{SortField, SortOrder, SortSpec};

fn make_file(name: &str, size: u64) -> EntryMeta {
    let mut meta = EntryMeta::new(
        name.to_string(),
        format!("C:\\test\\{}", name),
        EntryKind::File,
    );
    meta.size = size;
    meta
}

fn make_dir(name: &str) -> EntryMeta {
    EntryMeta::new(
        name.to_string(),
        format!("C:\\test\\{}", name),
        EntryKind::Directory,
    )
}

#[test]
fn test_entry_kind_is_methods() {
    assert!(EntryKind::File.is_file());
    assert!(!EntryKind::File.is_directory());
    assert!(!EntryKind::File.is_link());

    assert!(EntryKind::Directory.is_directory());
    assert!(!EntryKind::Directory.is_file());

    assert!(EntryKind::Symlink.is_link());
    assert!(EntryKind::Junction.is_link());
}

#[test]
fn test_entry_kind_labels() {
    assert_eq!(EntryKind::File.label(), "File");
    assert_eq!(EntryKind::Directory.label(), "Folder");
    assert_eq!(EntryKind::Symlink.label(), "Symlink");
    assert_eq!(EntryKind::Junction.label(), "Junction");
}

#[test]
fn test_entry_meta_new() {
    let meta = EntryMeta::new(
        "test.txt".to_string(),
        "C:\\test\\test.txt".to_string(),
        EntryKind::File,
    );

    assert_eq!(meta.name, "test.txt");
    assert!(meta.is_file());
    assert_eq!(meta.extension, Some("txt".to_string()));
}

#[test]
fn test_entry_meta_directory_no_extension() {
    let meta = EntryMeta::new(
        "folder".to_string(),
        "C:\\test\\folder".to_string(),
        EntryKind::Directory,
    );

    assert!(meta.is_directory());
    assert_eq!(meta.extension, None);
}

#[test]
fn test_entry_meta_hidden() {
    let mut meta = EntryMeta::new(
        "normal.txt".to_string(),
        "C:\\normal.txt".to_string(),
        EntryKind::File,
    );
    assert!(!meta.is_hidden());

    meta.attributes.hidden = true;
    assert!(meta.is_hidden());

    let dot_meta = EntryMeta::new(
        ".hidden".to_string(),
        "C:\\.hidden".to_string(),
        EntryKind::File,
    );
    assert!(dot_meta.is_hidden());
}

#[test]
fn test_dir_listing_stats() {
    let entries = vec![
        make_file("file1.txt", 1000),
        make_file("file2.txt", 2000),
        make_dir("subdir"),
    ];

    let listing = DirListing::new("C:\\test".to_string(), entries);

    assert_eq!(listing.len(), 3);
    assert_eq!(listing.file_count, 2);
    assert_eq!(listing.dir_count, 1);
    assert_eq!(listing.total_size, 3000);
    assert!(!listing.is_empty());
}

#[test]
fn entry_test_format_size() {
    assert_eq!(format_size(0), "0 B");
    assert_eq!(format_size(512), "512 B");
    assert_eq!(format_size(1024), "1.00 KB");
    assert_eq!(format_size(1536), "1.50 KB");
    assert_eq!(format_size(1048576), "1.00 MB");
    assert_eq!(format_size(1073741824), "1.00 GB");
    assert_eq!(format_size(1099511627776), "1.00 TB");
}

#[test]
fn empty_listing_is_valid() {
    let listing = DirListing::new("C:\\empty".to_string(), Vec::new());
    assert!(listing.is_empty());
    assert_eq!(listing.file_count, 0);
    assert_eq!(listing.dir_count, 0);
    assert_eq!(listing.total_size, 0);
}

#[test]
fn default_listing_order_dirs_first_by_name() {
    // a directory and two files: the directory leads, the files follow by
    // case-insensitive name
    let entries = vec![make_file("z.txt", 1), make_file("A.txt", 2), make_dir("b")];
    let listing = list_from_entries("C:\\test".to_string(), entries, None, None);
    let names: Vec<&str> = listing.entries.iter().map(|e| e.name.as_str()).collect();
    assert_eq!(names, vec!["b", "A.txt", "z.txt"]);
    assert_eq!(listing.total_size, 3);
    assert_eq!(listing.file_count, 2);
    assert_eq!(listing.dir_count, 1);
}

#[test]
fn listing_applies_filter_and_sort() {
    let entries = vec![
        make_file("charlie.txt", 100),
        make_file("alpha.txt", 200),
        make_file("ignore.md", 300),
    ];
    let filter = FilterSpec::new().with_extension("txt");
    let sort = SortSpec::new(SortField::Name, SortOrder::Ascending);
    let listing = list_from_entries("C:\\test".to_string(), entries, Some(&sort), Some(&filter));
    let names: Vec<&str> = listing.entries.iter().map(|e| e.name.as_str()).collect();
    assert_eq!(names, vec!["alpha.txt", "charlie.txt"]);
    assert_eq!(listing.total_size, 300);
}

#[test]
fn classification_marks_directories() {
    let raw = zmanager::listing::RawEntry {
        name: "sub".to_string(),
        path: "C:\\test\\sub".to_string(),
        attrs: zmanager::listing::ATTR_DIRECTORY | zmanager::listing::ATTR_HIDDEN,
        size: 4096,
        created: Some(100),
        modified: Some(200),
        accessed: None,
        link_target: None,
        target_exists: false,
    };
    let meta = zmanager::listing::build_entry(raw);
    assert_eq!(meta.kind, EntryKind::Directory);
    assert_eq!(meta.size, 0);
    assert!(meta.attributes.hidden);
    assert_eq!(meta.extension, None);
    assert!(!meta.is_broken_link);
}

#[test]
fn classification_marks_junctions_and_broken_links() {
    let raw = zmanager::listing::RawEntry {
        name: "link".to_string(),
        path: "C:\\test\\link".to_string(),
        attrs: zmanager::listing::ATTR_DIRECTORY | zmanager::listing::ATTR_REPARSE_POINT,
        size: 0,
        created: None,
        modified: None,
        accessed: None,
        link_target: Some("C:\\target".to_string()),
        target_exists: false,
    };
    let meta = zmanager::listing::build_entry(raw);
    assert_eq!(meta.kind, EntryKind::Junction);
    assert!(meta.is_broken_link);
    assert_eq!(meta.link_target, Some("C:\\target".to_string()));
}

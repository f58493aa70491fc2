use zmanager::entry::{EntryKind, EntryMeta};
use zmanager::filter::FilterSpec;
use zmanager::sort::{SortField, SortOrder, SortSpec};

fn make_file(name: &str, size: u64, hidden: bool) -> EntryMeta {
    let mut meta = EntryMeta::new(
        name.to_string(),
        format!("C:\\test\\{}", name),
        EntryKind::File,
    );
    meta.size = size;
    meta.attributes.hidden = hidden;
    meta
}

fn make_dir(name: &str, hidden: bool) -> EntryMeta {
    let mut meta = EntryMeta::new(
        name.to_string(),
        format!("C:\\test\\{}", name),
        EntryKind::Directory,
    );
    meta.attributes.hidden = hidden;
    meta
}

#[test]
fn default_filter_hides_hidden() {
    let filter = FilterSpec::new();
    let visible = make_file("visible.txt", 100, false);
    let hidden = make_file("hidden.txt", 100, true);

    assert!(filter.matches(&visible));
    assert!(!filter.matches(&hidden));
}

#[test]
fn pattern_filter_is_case_insensitive() {
    // the case folding runs through the library's lowercase adapter, so a
    // mismatching fold would fail this
    let filter = FilterSpec::new().with_pattern("DOC".to_string());
    let matches = make_file("Document.txt", 100, false);
    let no_match = make_file("image.png", 100, false);
    assert!(filter.matches(&matches));
    assert!(!filter.matches(&no_match));
}

#[test]
fn extension_filter_spares_directories() {
    let filter = FilterSpec::new().with_extension("txt").with_extension("md");

    let txt = make_file("readme.txt", 100, false);
    let md = make_file("notes.md", 100, false);
    let png = make_file("image.png", 100, false);
    let dir = make_dir("folder", false);

    assert!(filter.matches(&txt));
    assert!(filter.matches(&md));
    assert!(!filter.matches(&png));
    assert!(filter.matches(&dir));
}

#[test]
fn size_range_filter_applies_to_files_only() {
    let filter = FilterSpec::new().with_size_range(Some(100), Some(1000));

    let small = make_file("small.txt", 50, false);
    let medium = make_file("medium.txt", 500, false);
    let large = make_file("large.txt", 2000, false);
    let dir = make_dir("folder", false);

    assert!(!filter.matches(&small));
    assert!(filter.matches(&medium));
    assert!(!filter.matches(&large));
    assert!(filter.matches(&dir));
}

#[test]
fn filter_test_toggle_hidden() {
    let mut filter = FilterSpec::new();
    assert!(!filter.show_hidden);

    filter.toggle_hidden();
    assert!(filter.show_hidden);

    filter.toggle_hidden();
    assert!(!filter.show_hidden);
}

#[test]
fn test_active_filters_description() {
    let filter = FilterSpec::new();
    assert!(filter.active_filters_description().is_none());

    let filter = FilterSpec::new().with_pattern("test".to_string());
    assert_eq!(
        filter.active_filters_description(),
        Some("\"test\"".to_string())
    );

    let filter = FilterSpec::new()
        .with_hidden(true)
        .with_extension("txt")
        .with_extension("md");
    let desc = filter.active_filters_description().unwrap();
    assert!(desc.contains("hidden"));
    assert!(desc.contains(".txt"));
}

#[test]
fn filter_owned_keeps_matching_entries() {
    let entries = vec![
        make_file("visible.txt", 100, false),
        make_file("hidden.txt", 100, true),
        make_file("another.txt", 200, false),
    ];

    let filter = FilterSpec::new();
    let filtered = filter.filter_owned(&entries);

    assert_eq!(filtered.len(), 2);
    assert!(filtered.iter().all(|e| !e.is_hidden()));
}

#[test]
fn sort_by_name_both_orders() {
    let mut entries = vec![
        make_file("charlie.txt", 100, false),
        make_file("alpha.txt", 200, false),
        make_file("bravo.txt", 150, false),
    ];

    let spec = SortSpec::new(SortField::Name, SortOrder::Ascending);
    spec.sort(&mut entries);
    assert_eq!(entries[0].name, "alpha.txt");
    assert_eq!(entries[1].name, "bravo.txt");
    assert_eq!(entries[2].name, "charlie.txt");

    let spec = SortSpec::new(SortField::Name, SortOrder::Descending);
    spec.sort(&mut entries);
    assert_eq!(entries[0].name, "charlie.txt");
    assert_eq!(entries[1].name, "bravo.txt");
    assert_eq!(entries[2].name, "alpha.txt");
}

#[test]
fn sort_is_case_insensitive() {
    let mut entries = vec![
        make_file("Beta.txt", 100, false),
        make_file("alpha.txt", 200, false),
        make_file("GAMMA.txt", 150, false),
    ];

    let spec = SortSpec::by_name();
    spec.sort(&mut entries);

    assert_eq!(entries[0].name, "alpha.txt");
    assert_eq!(entries[1].name, "Beta.txt");
    assert_eq!(entries[2].name, "GAMMA.txt");
}

#[test]
fn sort_groups_directories_first() {
    let mut entries = vec![
        make_file("zfile.txt", 100, false),
        make_dir("adir", false),
        make_file("afile.txt", 200, false),
        make_dir("zdir", false),
    ];

    let mut spec = SortSpec::new(SortField::Name, SortOrder::Ascending);
    spec.directories_first = true;
    spec.sort(&mut entries);

    assert!(entries[0].is_directory());
    assert!(entries[1].is_directory());
    assert!(entries[2].is_file());
    assert!(entries[3].is_file());

    assert_eq!(entries[0].name, "adir");
    assert_eq!(entries[1].name, "zdir");
    assert_eq!(entries[2].name, "afile.txt");
    assert_eq!(entries[3].name, "zfile.txt");
}

#[test]
fn sort_is_idempotent_on_sorted_input() {
    let mut entries = vec![
        make_file("medium.txt", 500, false),
        make_file("small.txt", 100, false),
        make_file("large.txt", 1000, false),
    ];
    let spec = SortSpec::new(SortField::Size, SortOrder::Descending);
    spec.sort(&mut entries);
    let once: Vec<String> = entries.iter().map(|e| e.name.clone()).collect();
    spec.sort(&mut entries);
    let twice: Vec<String> = entries.iter().map(|e| e.name.clone()).collect();
    assert_eq!(once, twice);
    assert_eq!(once, vec!["large.txt", "medium.txt", "small.txt"]);
}

#[test]
fn test_toggle_or_set() {
    let mut spec = SortSpec::new(SortField::Name, SortOrder::Ascending);
    assert_eq!(spec.field, SortField::Name);
    assert_eq!(spec.order, SortOrder::Ascending);

    // Toggle same field
    spec.toggle_or_set(SortField::Name);
    assert_eq!(spec.field, SortField::Name);
    assert_eq!(spec.order, SortOrder::Descending);

    // Set different field
    spec.toggle_or_set(SortField::Size);
    assert_eq!(spec.field, SortField::Size);
    assert_eq!(spec.order, SortOrder::Ascending);
}

#[test]
fn sort_breaks_key_ties_by_name() {
    // equal sizes: the name decides, case-insensitively
    let mut entries = vec![
        make_file("bravo.txt", 5, false),
        make_file("Alpha.txt", 5, false),
        make_file("charlie.txt", 3, false),
    ];
    let spec = SortSpec::new(SortField::Size, SortOrder::Ascending);
    spec.sort(&mut entries);
    assert_eq!(entries[0].name, "charlie.txt");
    assert_eq!(entries[1].name, "Alpha.txt");
    assert_eq!(entries[2].name, "bravo.txt");
}

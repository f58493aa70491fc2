use zmanager::entry::{EntryKind, EntryMeta};
use zmanager::navigation::NavigationState;
use zmanager::selection::{ClickModifiers, Selection};

fn make_entries(names: &[&str]) -> Vec<EntryMeta> {
    names
        .iter()
        .map(|name| {
            EntryMeta::new(
                name.to_string(),
                format!("/test/{}", name),
                EntryKind::File,
            )
        })
        .collect()
}

#[test]
fn test_empty_selection() {
    let sel = Selection::new();
    assert!(sel.is_empty());
    assert_eq!(sel.count(), 0);
    assert_eq!(sel.cursor(), 0);
}

#[test]
fn test_cursor_movement() {
    let mut sel = Selection::with_count(5);

    assert_eq!(sel.cursor(), 0);

    sel.move_down();
    assert_eq!(sel.cursor(), 1);

    sel.move_down();
    sel.move_down();
    assert_eq!(sel.cursor(), 3);

    sel.move_up();
    assert_eq!(sel.cursor(), 2);

    sel.move_to_first();
    assert_eq!(sel.cursor(), 0);

    sel.move_to_last();
    assert_eq!(sel.cursor(), 4);
}

#[test]
fn test_cursor_bounds() {
    let mut sel = Selection::with_count(3);

    // Can't go below 0
    sel.move_up();
    assert_eq!(sel.cursor(), 0);

    // Can't go above count - 1
    sel.move_to_last();
    sel.move_down();
    assert_eq!(sel.cursor(), 2);
}

#[test]
fn test_page_navigation() {
    let mut sel = Selection::with_count(100);

    sel.page_down(20);
    assert_eq!(sel.cursor(), 20);

    sel.page_down(20);
    assert_eq!(sel.cursor(), 40);

    sel.page_up(30);
    assert_eq!(sel.cursor(), 10);

    sel.page_up(30);
    assert_eq!(sel.cursor(), 0);
}

#[test]
fn test_set_entry_count() {
    let mut sel = Selection::with_count(10);
    sel.set_cursor(8);
    assert_eq!(sel.cursor(), 8);

    // Shrink entry count
    sel.set_entry_count(5);
    assert_eq!(sel.cursor(), 4); // Clamped
}

#[test]
fn page_down_at_last_is_a_no_op() {
    let mut sel = Selection::with_count(5);
    sel.move_to_last();
    assert_eq!(sel.cursor(), 4);
    sel.page_down(20);
    assert_eq!(sel.cursor(), 4);
}

#[test]
fn page_up_at_first_is_a_no_op() {
    let mut sel = Selection::with_count(5);
    assert_eq!(sel.cursor(), 0);
    sel.page_up(20);
    assert_eq!(sel.cursor(), 0);
}

#[test]
fn toggle_and_clear_selection() {
    let entries = make_entries(&["a.txt", "b.txt", "c.txt"]);
    let mut sel = Selection::with_count(entries.len());

    sel.toggle_at_cursor(&entries);
    assert!(sel.is_selected(&entries[0].path));
    assert_eq!(sel.count(), 1);

    sel.toggle_at_cursor(&entries);
    assert!(!sel.is_selected(&entries[0].path));
    assert_eq!(sel.count(), 0);

    sel.select_all(&entries);
    assert_eq!(sel.count(), 3);
    sel.clear();
    assert!(sel.is_empty());
}

#[test]
fn invert_selection_flips_membership() {
    let entries = make_entries(&["a.txt", "b.txt", "c.txt"]);
    let mut sel = Selection::with_count(entries.len());

    sel.add(&entries[0].path);
    sel.invert(&entries);
    assert_eq!(sel.count(), 2);
    assert!(!sel.is_selected(&entries[0].path));
    assert!(sel.is_selected(&entries[1].path));
    assert!(sel.is_selected(&entries[2].path));
}

#[test]
fn click_semantics_follow_the_modifiers() {
    let entries = make_entries(&["a.txt", "b.txt", "c.txt", "d.txt"]);
    let mut sel = Selection::with_count(entries.len());

    // plain click: single selection and anchor
    sel.click(1, &entries, ClickModifiers::none());
    assert_eq!(sel.cursor(), 1);
    assert_eq!(sel.count(), 1);
    assert!(sel.is_selected(&entries[1].path));

    // shift click: range reseeded from the anchor
    sel.click(3, &entries, ClickModifiers::shift());
    assert_eq!(sel.count(), 3);
    assert!(!sel.is_selected(&entries[0].path));
    assert!(sel.is_selected(&entries[1].path));
    assert!(sel.is_selected(&entries[2].path));
    assert!(sel.is_selected(&entries[3].path));

    // ctrl click: toggle one
    sel.click(0, &entries, ClickModifiers::ctrl());
    assert_eq!(sel.count(), 4);
    assert!(sel.is_selected(&entries[0].path));
}

#[test]
fn operation_targets_fall_back_to_cursor() {
    let entries = make_entries(&["a.txt", "b.txt", "c.txt"]);
    let mut sel = Selection::with_count(entries.len());

    sel.set_cursor(1);
    let targets = sel.operation_targets(&entries);
    assert_eq!(targets.len(), 1);
    assert_eq!(targets[0].name, "b.txt");

    sel.add(&entries[0].path);
    sel.add(&entries[2].path);
    let targets = sel.operation_targets(&entries);
    assert_eq!(targets.len(), 2);
}

#[test]
fn navigation_back_and_forward() {
    let mut nav = NavigationState::new("/root".to_string());
    assert!(!nav.can_go_back());
    assert!(!nav.can_go_forward());

    nav.navigate_to("/root/a".to_string());
    nav.navigate_to("/root/b".to_string());
    assert!(nav.can_go_back());

    let p = nav.go_back();
    assert_eq!(p.as_deref(), Some("/root/a"));
    assert!(nav.can_go_forward());

    let p = nav.go_back();
    assert_eq!(p.as_deref(), Some("/root"));
    assert!(!nav.can_go_back());

    let p = nav.go_forward();
    assert_eq!(p.as_deref(), Some("/root/a"));
    let p = nav.go_forward();
    assert_eq!(p.as_deref(), Some("/root/b"));
    assert!(!nav.can_go_forward());
}

#[test]
fn navigation_to_same_path_is_a_no_op() {
    let mut nav = NavigationState::new("/root/a".to_string());
    nav.navigate_to("/root/a".to_string());
    assert!(!nav.can_go_back());
}

#[test]
fn navigation_clears_forward_on_new_branch() {
    let mut nav = NavigationState::new("/root".to_string());
    nav.navigate_to("/root/a".to_string());
    nav.navigate_to("/root/b".to_string());
    nav.go_back();
    assert!(nav.can_go_forward());
    nav.navigate_to("/root/c".to_string());
    assert!(!nav.can_go_forward());
}

#[test]
fn navigation_go_up_walks_to_parent() {
    let mut nav = NavigationState::new("/root/a".to_string());
    assert!(nav.can_go_up());
    let p = nav.go_up();
    assert_eq!(p.as_deref(), Some("/root"));
    assert!(nav.can_go_back());
}

#[test]
fn navigation_history_is_bounded() {
    // the back stack trims from the oldest end past one hundred entries
    let mut nav = NavigationState::new("/d0".to_string());
    for i in 1..150 {
        nav.navigate_to(format!("/d{}", i));
    }
    assert!(nav.back_history().len() <= 100);
    assert_eq!(nav.current_path().as_str(), "/d149");
    // the newest history entry is the prior current path
    assert_eq!(nav.back_history().last().map(|s| s.as_str()), Some("/d148"));
}

#[test]
fn navigation_toggle_hidden_flips_filter() {
    let mut nav = NavigationState::new("/root".to_string());
    assert!(!nav.filter.show_hidden);
    nav.toggle_hidden();
    assert!(nav.filter.show_hidden);
    nav.toggle_hidden();
    assert!(!nav.filter.show_hidden);
}

#[test]
fn ctrl_shift_click_unions_the_range() {
    let entries = make_entries(&["a.txt", "b.txt", "c.txt", "d.txt", "e.txt"]);
    let mut sel = Selection::with_count(entries.len());

    sel.click(0, &entries, ClickModifiers::none());
    sel.click(3, &entries, ClickModifiers::ctrl());
    // anchor sits at 0 from the plain click; the union adds [3, 4]
    // wait: ctrl+shift ranges from the anchor; re-anchor first
    sel.click(3, &entries, ClickModifiers::none());
    sel.click(0, &entries, ClickModifiers::ctrl());
    sel.click(4, &entries, ClickModifiers::ctrl_shift());
    assert!(sel.is_selected(&entries[0].path));
    assert!(sel.is_selected(&entries[3].path));
    assert!(sel.is_selected(&entries[4].path));
    assert!(!sel.is_selected(&entries[1].path));
    assert!(!sel.is_selected(&entries[2].path));
}

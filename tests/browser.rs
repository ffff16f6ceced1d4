use lx::entry::{build_items, classify, frame_items, listed_entries, sort_entries, Entry, EntryKind, Item};
use lx::layout::{layout, CELL_WIDTH};
use lx::nav::{Event, NavState, Outcome};
use lx::path::parent_dir;
use lx::render::{bottom_border, cell, plan_frame, top_border, Tag};
use lx::search::{letter_jump, next_match, starts_with_key};

fn entry(name: &str, kind: EntryKind, readable: bool) -> Entry {
    Entry {
        name: name.to_string(),
        path: format!("/base/{}", name),
        kind,
        readable,
    }
}

fn names(items: &[Item]) -> Vec<String> {
    items
        .iter()
        .map(|i| match i {
            Item::Back => "<back>".to_string(),
            Item::Close => "<close>".to_string(),
            Item::Entry(e) => e.name.clone(),
        })
        .collect()
}

fn sample_items() -> Vec<Item> {
    build_items(&vec![
        entry("notes.txt", EntryKind::File, true),
        entry("src", EntryKind::Directory, true),
        entry("Cargo.toml", EntryKind::File, true),
        entry("locked", EntryKind::Directory, false),
        entry("link", EntryKind::SymlinkToDirectory, true),
    ])
}

#[test]
fn layout_five_items_three_columns() {
    let l = layout(5, 80, 24);
    assert_eq!(l.columns, 3);
    assert_eq!(l.rows, 2);
    assert_eq!(l.total_width, 60);
    assert!(!l.scrollable);
}

#[test]
fn layout_five_items_box_stays_at_start_row() {
    let items = build_items(&vec![
        entry("a", EntryKind::File, true),
        entry("b", EntryKind::File, true),
        entry("c", EntryKind::File, true),
    ]);
    assert_eq!(items.len(), 5);
    let l = layout(items.len(), 80, 24);
    let state = NavState::new("/home".to_string(), 7);
    let f = plan_frame(&l, &state, &items, false);
    assert!(!f.clear_screen);
    assert_eq!(f.top_row, 7);
    assert_eq!(f.feed_lines, 0);
    assert_eq!(f.bottom_row, 7 + 1 + 2);
    assert_eq!(f.cells.len(), 5);
}

#[test]
fn layout_fifty_entries_scrolls() {
    let l = layout(52, 100, 10);
    assert_eq!(l.columns, 4);
    assert_eq!(l.rows, 13);
    assert!(l.scrollable);
}

#[test]
fn layout_narrow_terminal_keeps_one_column() {
    let l = layout(10, 10, 24);
    assert_eq!(l.columns, 1);
    assert_eq!(l.total_width, CELL_WIDTH);
    let l = layout(10, 30, 24);
    assert_eq!(l.columns, 1);
    assert!(l.total_width <= 30);
}

#[test]
fn layout_width_fits_terminal() {
    for count in 1..60usize {
        for width in [20u16, 39, 40, 59, 60, 80, 123, 200] {
            let l = layout(count, width, 30);
            assert!(l.columns >= 1);
            assert!(l.total_width <= width);
            assert_eq!(l.total_width as usize, l.columns * CELL_WIDTH as usize);
        }
    }
}

#[test]
fn layout_columns_limited_by_items() {
    let l = layout(2, 200, 24);
    assert_eq!(l.columns, 2);
    assert_eq!(l.rows, 1);
}

#[test]
fn down_keys_scroll_one_row_at_a_time() {
    let entries: Vec<Entry> = (0..50).map(|i| entry(&format!("f{}", i), EntryKind::File, true)).collect();
    let items = build_items(&entries);
    assert_eq!(items.len(), 52);
    let l = layout(items.len(), 100, 10);
    let mut state = NavState::new("/big".to_string(), 3);
    let mut last_row = 0usize;
    for _ in 0..20 {
        let before = state.scroll_offset;
        let o = state.step(&items, &l, Event::Down);
        assert!(matches!(o, Outcome::Stay));
        let row = state.selected_index / l.columns;
        let crossed = row - last_row;
        assert!(state.scroll_offset == before || state.scroll_offset == before + 1);
        if row >= 8 && crossed == 1 {
            assert_eq!(state.scroll_offset, before + 1);
        }
        assert!(state.selected_index < items.len());
        last_row = row;
    }
    assert_eq!(state.selected_index, 51);
    assert_eq!(state.scroll_offset, 5);
}

#[test]
fn scrolling_frame_starts_at_scroll_row() {
    let entries: Vec<Entry> = (0..50).map(|i| entry(&format!("f{}", i), EntryKind::File, true)).collect();
    let items = build_items(&entries);
    let l = layout(items.len(), 100, 10);
    let mut state = NavState::new("/big".to_string(), 3);
    state.scroll_offset = 2;
    state.selected_index = 9;
    let f = plan_frame(&l, &state, &items, false);
    assert!(f.clear_screen);
    assert_eq!(f.top_row, 0);
    assert_eq!(f.first_index, 8);
    assert_eq!(f.cells.len(), 32);
    assert_eq!(f.bottom_row, 9);
    assert!(f.cells[1].highlighted);
    assert!(!f.cells[0].highlighted);
}

#[test]
fn box_raised_when_prompt_is_low() {
    let items = build_items(&vec![entry("a", EntryKind::File, true)]);
    let l = layout(items.len(), 80, 10);
    let state = NavState::new("/".to_string(), 9);
    let f = plan_frame(&l, &state, &items, false);
    assert_eq!(f.top_row, 7);
    assert_eq!(f.feed_lines, 2);
}

#[test]
fn moves_stay_in_range() {
    let items = sample_items();
    let l = layout(items.len(), 80, 24);
    let mut state = NavState::new("/base".to_string(), 0);
    let keys = [Event::Left, Event::Up, Event::Right, Event::Right, Event::Down, Event::Down,
        Event::Down, Event::Right, Event::Right, Event::Up, Event::Left, Event::Left];
    for k in keys.iter() {
        state.step(&items, &l, *k);
        assert!(state.selected_index < items.len());
    }
}

#[test]
fn left_at_start_and_right_at_end_clamp() {
    let items = sample_items();
    let l = layout(items.len(), 80, 24);
    let mut state = NavState::new("/base".to_string(), 0);
    state.step(&items, &l, Event::Left);
    assert_eq!(state.selected_index, 0);
    state.selected_index = items.len() - 1;
    state.step(&items, &l, Event::Right);
    assert_eq!(state.selected_index, items.len() - 1);
    state.selected_index = 100;
    state.step(&items, &l, Event::Other);
    assert_eq!(state.selected_index, items.len() - 1);
}

#[test]
fn up_and_down_move_by_columns() {
    let items = sample_items();
    let l = layout(items.len(), 80, 24);
    assert_eq!(l.columns, 3);
    let mut state = NavState::new("/base".to_string(), 0);
    state.step(&items, &l, Event::Down);
    assert_eq!(state.selected_index, 3);
    state.step(&items, &l, Event::Down);
    assert_eq!(state.selected_index, 6);
    state.step(&items, &l, Event::Up);
    assert_eq!(state.selected_index, 3);
    state.step(&items, &l, Event::Up);
    state.step(&items, &l, Event::Up);
    assert_eq!(state.selected_index, 0);
}

#[test]
fn directories_sort_first_and_keep_order() {
    let sorted = sort_entries(&vec![
        entry("f1", EntryKind::File, true),
        entry("d1", EntryKind::Directory, true),
        entry("f2", EntryKind::File, true),
        entry("d2", EntryKind::Directory, true),
        entry("s", EntryKind::SymlinkToDirectory, true),
        entry("d3", EntryKind::Directory, false),
    ]);
    let n: Vec<&str> = sorted.iter().map(|e| e.name.as_str()).collect();
    assert_eq!(n, vec!["d1", "d2", "d3", "f1", "f2", "s"]);
}

#[test]
fn item_list_has_back_first_and_close_last() {
    let items = sample_items();
    assert_eq!(names(&items), vec!["<back>", "src", "locked", "notes.txt", "Cargo.toml", "link", "<close>"]);
    let empty = build_items(&vec![]);
    assert_eq!(names(&empty), vec!["<back>", "<close>"]);
}

#[test]
fn hidden_entries_filtered_unless_shown() {
    let raw = || vec![entry(".git", EntryKind::Directory, true), entry("a", EntryKind::File, true), entry(".env", EntryKind::File, true)];
    let kept = listed_entries(raw(), false);
    assert_eq!(kept.len(), 1);
    assert_eq!(kept[0].name, "a");
    assert_eq!(listed_entries(raw(), true).len(), 3);
    let items = frame_items(raw(), false);
    assert_eq!(names(&items), vec!["<back>", "a", "<close>"]);
}

#[test]
fn classify_entries() {
    assert_eq!(classify(true, false, false, false), EntryKind::Directory);
    assert_eq!(classify(false, true, false, false), EntryKind::File);
    assert_eq!(classify(false, false, true, true), EntryKind::SymlinkToDirectory);
    assert_eq!(classify(false, false, true, false), EntryKind::SymlinkToOther);
    assert_eq!(classify(false, false, false, false), EntryKind::Other);
}

#[test]
fn letter_jump_unique_match_from_any_start() {
    let items = sample_items();
    for start in 0..items.len() {
        assert_eq!(letter_jump(&items, start, 'n'), 3);
    }
}

#[test]
fn letter_jump_ignores_case() {
    let items = sample_items();
    assert_eq!(letter_jump(&items, 0, 'c'), 4);
    assert_eq!(letter_jump(&items, 0, 'N'), 3);
}

#[test]
fn letter_jump_without_match_keeps_selection() {
    let items = sample_items();
    for start in 0..items.len() {
        assert_eq!(letter_jump(&items, start, 'z'), start);
    }
}

#[test]
fn letter_jump_wraps_and_cycles() {
    let items = build_items(&vec![
        entry("alpha", EntryKind::File, true),
        entry("beta", EntryKind::File, true),
        entry("apple", EntryKind::File, true),
    ]);
    assert_eq!(letter_jump(&items, 0, 'a'), 1);
    assert_eq!(letter_jump(&items, 1, 'a'), 3);
    assert_eq!(letter_jump(&items, 3, 'a'), 1);
    assert_eq!(letter_jump(&items, 4, 'a'), 1);
}

#[test]
fn next_match_over_flags() {
    assert_eq!(next_match(&vec![false, true, false, true], 1), 3);
    assert_eq!(next_match(&vec![false, true, false, true], 3), 1);
    assert_eq!(next_match(&vec![false, false, false], 2), 2);
    assert!(starts_with_key("readme", 'r'));
    assert!(starts_with_key("readme", 'R'));
    assert!(!starts_with_key("", 'r'));
    assert!(!starts_with_key("xr", 'r'));
}

#[test]
fn confirm_readable_directory_enters_it() {
    let items = sample_items();
    let l = layout(items.len(), 80, 24);
    let mut state = NavState::new("/base".to_string(), 4);
    state.selected_index = 1;
    state.scroll_offset = 2;
    let o = state.step(&items, &l, Event::Confirm);
    assert!(matches!(o, Outcome::Changed));
    assert_eq!(state.current_directory, "/base/src");
    assert_eq!(state.selected_index, 0);
    assert_eq!(state.scroll_offset, 0);
    assert_eq!(state.box_top_row, 4);
}

#[test]
fn confirm_symlink_to_directory_enters_target() {
    let items = sample_items();
    let l = layout(items.len(), 80, 24);
    let mut state = NavState::new("/base".to_string(), 0);
    state.selected_index = 5;
    let o = state.step(&items, &l, Event::Confirm);
    assert!(matches!(o, Outcome::Changed));
    assert_eq!(state.current_directory, "/base/link");
}

#[test]
fn confirm_unreadable_directory_changes_nothing() {
    let items = sample_items();
    let l = layout(items.len(), 80, 24);
    let mut state = NavState::new("/base".to_string(), 0);
    state.selected_index = 2;
    state.scroll_offset = 1;
    let o = state.step(&items, &l, Event::Confirm);
    assert!(matches!(o, Outcome::Stay));
    assert_eq!(state.current_directory, "/base");
    assert_eq!(state.selected_index, 2);
    assert_eq!(state.scroll_offset, 1);
}

#[test]
fn confirm_file_changes_nothing() {
    let items = sample_items();
    let l = layout(items.len(), 80, 24);
    let mut state = NavState::new("/base".to_string(), 0);
    state.selected_index = 3;
    let o = state.step(&items, &l, Event::Confirm);
    assert!(matches!(o, Outcome::Stay));
    assert_eq!(state.current_directory, "/base");
    assert_eq!(state.selected_index, 3);
}

#[test]
fn back_and_backspace_go_to_parent() {
    let items = sample_items();
    let l = layout(items.len(), 80, 24);
    let mut state = NavState::new("/a/b".to_string(), 0);
    let o = state.step(&items, &l, Event::Confirm);
    assert!(matches!(o, Outcome::Changed));
    assert_eq!(state.current_directory, "/a");
    let mut state = NavState::new("/a/b".to_string(), 0);
    state.selected_index = 2;
    state.scroll_offset = 1;
    state.step(&items, &l, Event::Backspace);
    assert_eq!(state.current_directory, "/a");
    assert_eq!(state.selected_index, 0);
    assert_eq!(state.scroll_offset, 0);
}

#[test]
fn back_at_root_stays_at_root() {
    let items = sample_items();
    let l = layout(items.len(), 80, 24);
    let mut state = NavState::new("/".to_string(), 0);
    state.step(&items, &l, Event::Backspace);
    assert_eq!(state.current_directory, "/");
    state.step(&items, &l, Event::Confirm);
    assert_eq!(state.current_directory, "/");
}

#[test]
fn parent_dir_of_paths() {
    assert_eq!(parent_dir(&"/a/b".to_string()), "/a");
    assert_eq!(parent_dir(&"/a".to_string()), "/");
    assert_eq!(parent_dir(&"/".to_string()), "/");
    assert_eq!(parent_dir(&"/usr/local/bin".to_string()), "/usr/local");
    assert_eq!(parent_dir(&"plain".to_string()), "plain");
}

#[test]
fn escape_reports_directory_after_navigation() {
    let items = sample_items();
    let l = layout(items.len(), 80, 24);
    let mut state = NavState::new("/base".to_string(), 0);
    state.selected_index = 1;
    state.step(&items, &l, Event::Confirm);
    let inner = build_items(&vec![]);
    let l2 = layout(inner.len(), 80, 24);
    match state.step(&inner, &l2, Event::Escape) {
        Outcome::Terminated(d) => assert_eq!(d, "/base/src"),
        _ => panic!("escape must end browsing"),
    }
}

#[test]
fn close_reports_current_directory() {
    let items = sample_items();
    let l = layout(items.len(), 80, 24);
    let mut state = NavState::new("/base".to_string(), 0);
    state.step(&items, &l, Event::Backspace);
    let inner = build_items(&vec![entry("x", EntryKind::File, true)]);
    let l2 = layout(inner.len(), 80, 24);
    state.selected_index = inner.len() - 1;
    match state.step(&inner, &l2, Event::Confirm) {
        Outcome::Terminated(d) => assert_eq!(d, "/"),
        _ => panic!("close must end browsing"),
    }
}

#[test]
fn mouse_and_other_events_do_nothing() {
    let items = sample_items();
    let l = layout(items.len(), 80, 24);
    let mut state = NavState::new("/base".to_string(), 0);
    state.selected_index = 4;
    assert!(matches!(state.step(&items, &l, Event::MouseRelease(3, 4)), Outcome::Stay));
    assert!(matches!(state.step(&items, &l, Event::Other), Outcome::Stay));
    assert_eq!(state.selected_index, 4);
    assert_eq!(state.current_directory, "/base");
}

#[test]
fn cells_are_fixed_width() {
    let long = Item::Entry(entry("a_very_long_file_name_indeed.txt", EntryKind::File, true));
    let c = cell(&long, false, false);
    assert_eq!(c.text, format!("{}{}", "a_very_long_file_", "   "));
    assert_eq!(c.text.chars().count(), 20);
    assert!(c.tag.is_none());
    let c = cell(&long, true, true);
    assert_eq!(c.tag, Some(Tag::File));
    assert_eq!(c.text.chars().count(), 17);
    assert!(c.highlighted);
    let c = cell(&Item::Back, true, false);
    assert_eq!(c.text, "Go Back             ");
    assert!(c.tag.is_none());
    let c = cell(&Item::Close, false, false);
    assert_eq!(c.text, "Exit                ");
}

#[test]
fn tags_by_kind() {
    let t = |e: Entry| cell(&Item::Entry(e), true, false).tag;
    assert_eq!(t(entry("d", EntryKind::Directory, true)), Some(Tag::Directory));
    assert_eq!(t(entry("d", EntryKind::Directory, false)), Some(Tag::LockedDirectory));
    assert_eq!(t(entry("l", EntryKind::SymlinkToDirectory, true)), Some(Tag::Symlink));
    assert_eq!(t(entry("l", EntryKind::SymlinkToOther, true)), Some(Tag::Symlink));
    assert_eq!(t(entry("p", EntryKind::Other, true)), Some(Tag::Other));
}

#[test]
fn borders_match_box_width() {
    let l = layout(7, 80, 24);
    let top = top_border(&"/home/user".to_string(), &l);
    let bottom = bottom_border(&l);
    assert_eq!(top.chars().count(), 64);
    assert_eq!(bottom.chars().count(), 64);
    assert!(top.starts_with("\u{256d}\u{2524}/home/user\u{251c}\u{2500}"));
    assert!(top.ends_with("\u{2500}\u{256e}"));
    assert!(bottom.starts_with("\u{2570}\u{2500}"));
    assert!(bottom.ends_with("\u{2500}\u{256f}"));
}

#[test]
fn top_border_truncates_long_path() {
    let l = layout(1, 80, 24);
    assert_eq!(l.total_width, 20);
    let top = top_border(&"/a/very/long/directory/path".to_string(), &l);
    assert_eq!(top, "\u{256d}\u{2524}/a/very/long/dir\u{251c}\u{2500}\u{2500}\u{256e}");
}

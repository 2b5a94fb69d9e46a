use lope::input::{InputHandler, KeyCode, KeyEvent};
use lope::widgets::file_browser::{visible_in, DirectoryState, EntryType, State, TreeEntry};

fn file(path: &str, depth: usize) -> TreeEntry {
    TreeEntry::new(path.to_string(), depth, false)
}

fn dir(path: &str, depth: usize, expanded: bool) -> TreeEntry {
    TreeEntry {
        path: path.to_string(),
        depth,
        entry_type: EntryType::Directory(DirectoryState { expanded }),
        excluded: true,
    }
}

fn press(state: &mut State, code: KeyCode) {
    let action = state.process_key(KeyEvent::plain(code));
    assert!(action.is_none());
}

fn is_expanded(entry: &TreeEntry) -> Option<bool> {
    match &entry.entry_type {
        EntryType::Directory(state) => Some(state.expanded),
        EntryType::File => None,
    }
}

/// A tree with two directories at the top, the first holding a nested one.
fn sample() -> Vec<TreeEntry> {
    vec![
        dir("src", 0, true),          // 0
        file("src/main.rs", 1),       // 1
        dir("src/widgets", 1, true),  // 2
        file("src/widgets/a.rs", 2),  // 3
        file("src/widgets/b.rs", 2),  // 4
        file("src/z.rs", 1),          // 5
        dir("tests", 0, true),        // 6
        file("tests/t.rs", 1),        // 7
        file("README.md", 0),         // 8
    ]
}

#[test]
fn new_entry_is_excluded_and_expanded() {
    let f = TreeEntry::new("a.txt".to_string(), 3, false);
    assert_eq!(f.path, "a.txt");
    assert_eq!(f.depth, 3);
    assert!(f.excluded);
    assert!(matches!(f.entry_type, EntryType::File));
    let d = TreeEntry::new("dir".to_string(), 0, true);
    assert!(d.excluded);
    assert_eq!(is_expanded(&d), Some(true));
}

#[test]
fn collapsed_directory_hides_its_child() {
    let mut state = State::new(vec![file("a.txt", 0), dir("dir", 0, false), file("dir/b.txt", 1)]);
    assert_eq!(state.visible_entries(), vec![0, 1]);
    press(&mut state, KeyCode::Char('j'));
    press(&mut state, KeyCode::Char('l'));
    assert_eq!(is_expanded(&state.file_list[1]), Some(true));
    assert_eq!(state.visible_entries(), vec![0, 1, 2]);
}

#[test]
fn empty_store_shows_nothing() {
    let state = State::new(Vec::new());
    assert_eq!(state.visible_entries(), Vec::<usize>::new());
    assert_eq!(visible_in(&Vec::new()), Vec::<usize>::new());
}

#[test]
fn expanded_tree_shows_everything() {
    assert_eq!(visible_in(&sample()), vec![0, 1, 2, 3, 4, 5, 6, 7, 8]);
}

#[test]
fn collapsing_hides_the_subtree_and_nothing_else() {
    let mut entries = sample();
    entries[2] = dir("src/widgets", 1, false);
    assert_eq!(visible_in(&entries), vec![0, 1, 2, 5, 6, 7, 8]);
    entries[0] = dir("src", 0, false);
    assert_eq!(visible_in(&entries), vec![0, 6, 7, 8]);
    entries[2] = dir("src/widgets", 1, true);
    assert_eq!(visible_in(&entries), vec![0, 6, 7, 8]);
    entries[6] = dir("tests", 0, false);
    assert_eq!(visible_in(&entries), vec![0, 6, 8]);
}

#[test]
fn collapsed_directory_at_the_end_hides_nothing() {
    let entries = vec![file("a", 0), dir("d", 0, false)];
    assert_eq!(visible_in(&entries), vec![0, 1]);
}

#[test]
fn collapsed_sibling_directories_each_hide_their_own() {
    let entries = vec![
        dir("a", 0, false),
        file("a/x", 1),
        dir("b", 0, false),
        file("b/y", 1),
        file("b/z", 1),
        dir("c", 0, true),
        file("c/w", 1),
    ];
    assert_eq!(visible_in(&entries), vec![0, 2, 5, 6]);
}

#[test]
fn deep_nesting_under_a_collapsed_directory_is_hidden() {
    let mut entries = vec![dir("d0", 0, false)];
    for depth in 1..200 {
        entries.push(dir("d", depth, depth % 2 == 0));
    }
    entries.push(file("top", 0));
    assert_eq!(visible_in(&entries), vec![0, 200]);
}

#[test]
fn a_file_hides_nothing_that_follows_it() {
    let entries = vec![file("a", 0), file("odd", 1), dir("d", 1, false), file("d/x", 2)];
    assert_eq!(visible_in(&entries), vec![0, 1, 2]);
}

#[test]
fn cursor_starts_on_the_first_row() {
    let state = State::new(sample());
    assert_eq!(state.list_state.selected(), Some(0));
}

#[test]
fn moving_up_from_the_first_row_stays() {
    let mut state = State::new(sample());
    state.decrement_selected();
    assert_eq!(state.list_state.selected(), Some(0));
    press(&mut state, KeyCode::Char('k'));
    assert_eq!(state.list_state.selected(), Some(0));
}

#[test]
fn moving_down_from_the_last_row_stays() {
    let mut state = State::new(vec![file("a", 0), dir("d", 0, false), file("d/x", 1)]);
    state.increment_selected();
    assert_eq!(state.list_state.selected(), Some(1));
    state.increment_selected();
    assert_eq!(state.list_state.selected(), Some(1));
    press(&mut state, KeyCode::Char('j'));
    assert_eq!(state.list_state.selected(), Some(1));
}

#[test]
fn moving_steps_by_one_row() {
    let mut state = State::new(sample());
    press(&mut state, KeyCode::Char('j'));
    press(&mut state, KeyCode::Char('j'));
    press(&mut state, KeyCode::Char('j'));
    assert_eq!(state.list_state.selected(), Some(3));
    press(&mut state, KeyCode::Char('k'));
    assert_eq!(state.list_state.selected(), Some(2));
}

#[test]
fn unset_cursor_goes_to_the_first_or_last_row() {
    let mut state = State::new(sample());
    state.list_state.select(None);
    state.increment_selected();
    assert_eq!(state.list_state.selected(), Some(0));
    state.list_state.select(None);
    state.decrement_selected();
    assert_eq!(state.list_state.selected(), Some(8));
}

#[test]
fn moving_in_an_empty_store_changes_nothing() {
    let mut state = State::new(Vec::new());
    state.increment_selected();
    assert_eq!(state.list_state.selected(), Some(0));
    state.decrement_selected();
    assert_eq!(state.list_state.selected(), Some(0));
    state.list_state.select(None);
    state.decrement_selected();
    assert_eq!(state.list_state.selected(), Some(0));
}

#[test]
fn selected_index_follows_the_visible_rows() {
    let mut entries = sample();
    entries[0] = dir("src", 0, false);
    let mut state = State::new(entries);
    assert_eq!(state.get_selected_idx(), Some(0));
    state.increment_selected();
    assert_eq!(state.get_selected_idx(), Some(6));
    state.increment_selected();
    assert_eq!(state.get_selected_idx(), Some(7));
}

#[test]
fn selected_index_of_an_unset_cursor_is_the_first_row() {
    let mut state = State::new(sample());
    state.list_state.select(None);
    assert_eq!(state.get_selected_idx(), Some(0));
    assert_eq!(state.list_state.selected(), Some(0));
    let mut empty = State::new(Vec::new());
    empty.list_state.select(None);
    assert_eq!(empty.get_selected_idx(), None);
    assert_eq!(empty.list_state.selected(), Some(0));
}

#[test]
fn cursor_beyond_the_rows_selects_nothing() {
    let mut state = State::new(vec![dir("d", 0, true), file("d/a", 1)]);
    state.list_state.select(Some(5));
    assert_eq!(state.get_selected_idx(), None);
    press(&mut state, KeyCode::Char('h'));
    assert_eq!(is_expanded(&state.file_list[0]), Some(true));
    press(&mut state, KeyCode::Enter);
    assert!(state.file_list[1].excluded);
}

#[test]
fn collapse_and_expand_the_selected_directory() {
    let mut state = State::new(sample());
    press(&mut state, KeyCode::Char('j'));
    press(&mut state, KeyCode::Char('j'));
    press(&mut state, KeyCode::Char('h'));
    assert_eq!(is_expanded(&state.file_list[2]), Some(false));
    assert_eq!(state.visible_entries(), vec![0, 1, 2, 5, 6, 7, 8]);
    assert_eq!(state.get_selected_idx(), Some(2));
    press(&mut state, KeyCode::Char('h'));
    assert_eq!(is_expanded(&state.file_list[2]), Some(false));
    press(&mut state, KeyCode::Char('l'));
    assert_eq!(is_expanded(&state.file_list[2]), Some(true));
    assert_eq!(state.visible_entries(), vec![0, 1, 2, 3, 4, 5, 6, 7, 8]);
    assert_eq!(state.get_selected_idx(), Some(2));
}

#[test]
fn expanding_a_file_changes_nothing() {
    let mut state = State::new(sample());
    press(&mut state, KeyCode::Char('j'));
    state.set_expanded(false);
    state.set_expanded(true);
    assert!(matches!(state.file_list[1].entry_type, EntryType::File));
    assert_eq!(state.visible_entries(), vec![0, 1, 2, 3, 4, 5, 6, 7, 8]);
}

#[test]
fn toggling_a_file_twice_restores_it() {
    let mut state = State::new(sample());
    press(&mut state, KeyCode::Char('j'));
    assert!(state.file_list[1].excluded);
    press(&mut state, KeyCode::Enter);
    assert!(!state.file_list[1].excluded);
    press(&mut state, KeyCode::Enter);
    assert!(state.file_list[1].excluded);
    assert_eq!(state.list_state.selected(), Some(1));
}

#[test]
fn toggling_a_directory_changes_nothing() {
    let mut state = State::new(sample());
    state.toggle_included();
    assert!(state.file_list[0].excluded);
    assert_eq!(state.get_included_entries(), Vec::<String>::new());
}

#[test]
fn included_paths_are_the_included_files_in_store_order() {
    let mut state = State::new(sample());
    assert_eq!(state.get_included_entries(), Vec::<String>::new());
    for _ in 0..4 {
        press(&mut state, KeyCode::Char('j'));
    }
    press(&mut state, KeyCode::Enter);
    for _ in 0..3 {
        press(&mut state, KeyCode::Char('k'));
    }
    press(&mut state, KeyCode::Enter);
    assert_eq!(
        state.get_included_entries(),
        vec!["src/main.rs".to_string(), "src/widgets/b.rs".to_string()]
    );
}

#[test]
fn included_paths_leave_out_directories() {
    let mut entries = vec![dir("d", 0, true), file("d/a", 1)];
    entries[0].excluded = false;
    entries[1].excluded = false;
    let state = State::new(entries);
    assert_eq!(state.get_included_entries(), vec!["d/a".to_string()]);
}

#[test]
fn entire_tree_has_one_line_for_each_entry() {
    let mut entries = vec![
        dir("src", 0, false),
        file("src/a.rs", 1),
        dir("src/w", 1, true),
        file("src/w/b.rs", 2),
        file("c", 0),
    ];
    entries[3].excluded = false;
    let state = State::new(entries);
    assert_eq!(state.visible_entries(), vec![0, 4]);
    assert_eq!(state.get_entire_tree(), "src\n  src/a.rs\n  src/w\n    * src/w/b.rs\nc\n");
}

#[test]
fn entire_tree_of_an_empty_store_is_empty() {
    assert_eq!(State::new(Vec::new()).get_entire_tree(), "");
}

#[test]
fn other_keys_change_nothing() {
    let mut state = State::new(sample());
    press(&mut state, KeyCode::Char('j'));
    press(&mut state, KeyCode::Char('x'));
    press(&mut state, KeyCode::Backspace);
    press(&mut state, KeyCode::Other);
    state.process_tick();
    assert_eq!(state.list_state.selected(), Some(1));
    assert_eq!(state.visible_entries(), vec![0, 1, 2, 3, 4, 5, 6, 7, 8]);
    assert_eq!(state.get_included_entries(), Vec::<String>::new());
}

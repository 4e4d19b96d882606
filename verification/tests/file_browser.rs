use terminalg::file_browser::context_menu::{build_context_menu_items, ContextMenuItem};
use terminalg::file_browser::pane::{FileBrowserPane, FileBrowserPaneEvent, FileBrowserRuntimeState};
use terminalg::file_browser::render::{git_status_char, git_status_color, EntryDetails, GitStatusColor};
use terminalg::file_browser::state::{
    build_flattened_tree, calculate_depth, collapse_dir, expand_dir, is_expanded, WorktreeRef,
};

#[test]
fn context_menu_item_new() {
    let item = ContextMenuItem::new("Test");
    assert_eq!(item.label, "Test");
    assert!(item.shortcut.is_none());
    assert!(item.enabled);
}

#[test]
fn context_menu_item_with_shortcut() {
    let item = ContextMenuItem::new("Test").shortcut("Cmd+T");
    assert_eq!(item.shortcut, Some("Cmd+T".to_string()));
}

#[test]
fn context_menu_item_disabled() {
    let item = ContextMenuItem::new("Test").enabled(false);
    assert!(!item.enabled);
}

#[test]
fn build_context_menu_for_file() {
    let items = build_context_menu_items(1, false, false);

    // Should not have "Open in Terminal"
    assert!(!items.iter().any(|i| i.label == "Open in Terminal"));

    // Paste should be disabled
    let paste = items.iter().find(|i| i.label == "Paste").unwrap();
    assert!(!paste.enabled);
}

#[test]
fn build_context_menu_for_directory() {
    let items = build_context_menu_items(1, true, true);

    // Should have "Open in Terminal"
    assert!(items.iter().any(|i| i.label == "Open in Terminal"));

    // Paste should be enabled
    let paste = items.iter().find(|i| i.label == "Paste").unwrap();
    assert!(paste.enabled);
}

#[test]
fn context_menu_full_layout() {
    let labels: Vec<String> = build_context_menu_items(7, true, false)
        .into_iter()
        .map(|i| i.label)
        .collect();
    assert_eq!(
        labels,
        vec![
            "New File",
            "New Folder",
            "---",
            "Rename",
            "Delete",
            "---",
            "Cut",
            "Copy",
            "Paste",
            "---",
            "Copy Path",
            "Copy Relative Path",
            "---",
            "Reveal in Finder",
            "Open in Terminal",
            "---",
            "Collapse All",
        ]
    );
    let items = build_context_menu_items(7, false, true);
    assert_eq!(items.len(), 16);
    assert_eq!(items[1].shortcut.as_deref(), Some("Shift+N"));
    assert_eq!(items[4].shortcut.as_deref(), Some("Delete"));
    assert!(items.iter().all(|i| i.enabled));
}

#[test]
fn is_expanded_present() {
    let expanded = vec![1, 3, 5, 7, 9];
    assert!(is_expanded(1, &expanded));
    assert!(is_expanded(5, &expanded));
    assert!(is_expanded(9, &expanded));
}

#[test]
fn is_expanded_absent() {
    let expanded = vec![1, 3, 5, 7, 9];
    assert!(!is_expanded(0, &expanded));
    assert!(!is_expanded(2, &expanded));
    assert!(!is_expanded(4, &expanded));
    assert!(!is_expanded(6, &expanded));
    assert!(!is_expanded(8, &expanded));
    assert!(!is_expanded(10, &expanded));
}

#[test]
fn is_expanded_empty() {
    let expanded: Vec<u64> = vec![];
    assert!(!is_expanded(1, &expanded));
}

#[test]
fn expand_dir_insert_middle() {
    let mut expanded = vec![1, 3, 5, 7];
    expand_dir(4, &mut expanded);
    assert_eq!(expanded, vec![1, 3, 4, 5, 7]);
}

#[test]
fn expand_dir_insert_beginning() {
    let mut expanded = vec![3, 5, 7];
    expand_dir(1, &mut expanded);
    assert_eq!(expanded, vec![1, 3, 5, 7]);
}

#[test]
fn expand_dir_insert_end() {
    let mut expanded = vec![1, 3, 5];
    expand_dir(7, &mut expanded);
    assert_eq!(expanded, vec![1, 3, 5, 7]);
}

#[test]
fn expand_dir_duplicate() {
    let mut expanded = vec![1, 3, 5];
    expand_dir(3, &mut expanded);
    assert_eq!(expanded, vec![1, 3, 5]);
}

#[test]
fn expand_dir_empty() {
    let mut expanded: Vec<u64> = vec![];
    expand_dir(1, &mut expanded);
    assert_eq!(expanded, vec![1]);
}

#[test]
fn collapse_dir_remove_middle() {
    let mut expanded = vec![1, 3, 5, 7];
    collapse_dir(5, &mut expanded);
    assert_eq!(expanded, vec![1, 3, 7]);
}

#[test]
fn collapse_dir_remove_beginning() {
    let mut expanded = vec![1, 3, 5, 7];
    collapse_dir(1, &mut expanded);
    assert_eq!(expanded, vec![3, 5, 7]);
}

#[test]
fn collapse_dir_remove_end() {
    let mut expanded = vec![1, 3, 5, 7];
    collapse_dir(7, &mut expanded);
    assert_eq!(expanded, vec![1, 3, 5]);
}

#[test]
fn collapse_dir_not_found() {
    let mut expanded = vec![1, 3, 5, 7];
    collapse_dir(4, &mut expanded);
    assert_eq!(expanded, vec![1, 3, 5, 7]);
}

#[test]
fn collapse_dir_empty() {
    let mut expanded: Vec<u64> = vec![];
    collapse_dir(1, &mut expanded);
    assert!(expanded.is_empty());
}

#[test]
fn expand_collapse_roundtrip() {
    let mut expanded = vec![1, 5, 9];

    expand_dir(3, &mut expanded);
    expand_dir(7, &mut expanded);
    assert_eq!(expanded, vec![1, 3, 5, 7, 9]);

    collapse_dir(3, &mut expanded);
    collapse_dir(7, &mut expanded);
    assert_eq!(expanded, vec![1, 5, 9]);
}

#[test]
fn expand_maintains_sort_order() {
    let mut expanded = vec![10, 30, 50];

    expand_dir(40, &mut expanded);
    expand_dir(20, &mut expanded);
    expand_dir(60, &mut expanded);
    expand_dir(5, &mut expanded);

    assert_eq!(expanded, vec![5, 10, 20, 30, 40, 50, 60]);
}

#[test]
fn calculate_depth_root_level() {
    let path = "README.md";
    assert_eq!(calculate_depth(path), 0);
}

#[test]
fn calculate_depth_one_level() {
    let path = "src/main.rs";
    assert_eq!(calculate_depth(path), 1);
}

#[test]
fn calculate_depth_two_levels() {
    let path = "src/file_browser/state.rs";
    assert_eq!(calculate_depth(path), 2);
}

#[test]
fn calculate_depth_deep_nesting() {
    let path = "a/b/c/d/e/f/file.txt";
    assert_eq!(calculate_depth(path), 6);
}

#[test]
fn calculate_depth_components_like_std_paths() {
    // Empty path: no components.
    assert_eq!(calculate_depth(""), 0);
    // Root alone, and a root-level file (root + name).
    assert_eq!(calculate_depth("/"), 0);
    assert_eq!(calculate_depth("/etc"), 1);
    // Leading `.` counts, inner `.` and repeated or trailing slashes do not.
    assert_eq!(calculate_depth("./src/main.rs"), 2);
    assert_eq!(calculate_depth("src/./main.rs"), 1);
    assert_eq!(calculate_depth("src//main.rs/"), 1);
    // `..` is a component.
    assert_eq!(calculate_depth("../x"), 1);
    for p in ["", "/", "/etc", "./src/main.rs", "src/./main.rs", "src//main.rs/", "../x", "a/b/c"] {
        let n = std::path::Path::new(p).components().count();
        assert_eq!(calculate_depth(p), n.saturating_sub(1), "{p}");
    }
}

#[test]
fn build_flattened_tree_placeholder() {
    let worktree = WorktreeRef;
    let expanded: Vec<u64> = vec![1, 2, 3];

    let result = build_flattened_tree(&worktree, &expanded);
    assert!(result.is_empty());
}

#[test]
fn binary_search_performance() {
    let mut expanded: Vec<u64> = (0..10000).step_by(2).collect();

    assert!(is_expanded(5000, &expanded));
    assert!(!is_expanded(5001, &expanded));

    expand_dir(5001, &mut expanded);
    assert!(is_expanded(5001, &expanded));

    collapse_dir(5001, &mut expanded);
    assert!(!is_expanded(5001, &expanded));
}

#[test]
fn expand_is_idempotent_and_collapse_of_absent_is_noop() {
    let mut expanded = vec![2, 4, 6];
    expand_dir(4, &mut expanded);
    expand_dir(4, &mut expanded);
    assert_eq!(expanded, vec![2, 4, 6]);
    collapse_dir(5, &mut expanded);
    assert_eq!(expanded, vec![2, 4, 6]);
    // collapse then expand gives the list back
    collapse_dir(4, &mut expanded);
    assert_eq!(expanded, vec![2, 6]);
    expand_dir(4, &mut expanded);
    assert_eq!(expanded, vec![2, 4, 6]);
}

#[test]
fn entry_details_from_path() {
    let path = "src/main.rs".to_string();
    let details = EntryDetails::from_path(1, path, false, 1);

    assert_eq!(details.id, 1);
    assert_eq!(details.filename, "main.rs");
    assert_eq!(details.depth, 1);
    assert!(!details.is_dir);
    assert!(!details.is_expanded);
    assert!(!details.is_selected);
}

#[test]
fn entry_details_from_path_directory() {
    let path = "src/file_browser".to_string();
    let details = EntryDetails::from_path(2, path, true, 1);

    assert_eq!(details.filename, "file_browser");
    assert!(details.is_dir);
}

#[test]
fn entry_details_name_edge_cases() {
    assert_eq!(EntryDetails::from_path(3, "a/b/".to_string(), true, 1).filename, "b");
    assert_eq!(EntryDetails::from_path(3, "a/.".to_string(), true, 0).filename, "a");
    assert_eq!(EntryDetails::from_path(3, "a/..".to_string(), true, 0).filename, "");
    assert_eq!(EntryDetails::from_path(3, "/".to_string(), true, 0).filename, "");
    assert_eq!(EntryDetails::from_path(3, "".to_string(), false, 0).filename, "");
    let d = EntryDetails::from_path(9, "x/y.txt".to_string(), false, 4);
    assert_eq!(d.path, "x/y.txt");
    assert!(!d.is_marked && !d.is_editing);
}

#[test]
fn git_status_char_mappings() {
    assert_eq!(git_status_char("A"), "+");
    assert_eq!(git_status_char("M"), "~");
    assert_eq!(git_status_char("D"), "-");
    assert_eq!(git_status_char("?"), "?");
    assert_eq!(git_status_char("C"), "!");
    assert_eq!(git_status_char("X"), "");
    assert_eq!(git_status_char("AM"), "");
    assert_eq!(git_status_char(""), "");
}

#[test]
fn placeholder_tree_has_entries() {
    let entries = FileBrowserPane::create_placeholder_tree();
    assert!(!entries.is_empty());
    assert!(entries.iter().any(|e| e.is_dir));
    assert!(entries.iter().any(|e| !e.is_dir));
}

#[test]
fn runtime_state_default() {
    let state = FileBrowserRuntimeState::default();
    assert!(state.visible_entries.is_empty());
    assert!(state.expanded_dir_ids.is_empty());
    assert!(state.selection.is_none());
    assert!(state.marked_entries.is_empty());
    assert!((f32::from_bits(state.scroll_offset) - 0.0).abs() < f32::EPSILON);
}

fn selected_path(ev: &FileBrowserPaneEvent) -> Option<String> {
    match ev {
        FileBrowserPaneEvent::SelectionChanged(p) => p.clone(),
        _ => panic!("expected a selection event"),
    }
}

#[test]
fn pane_keyboard_navigation_wraps() {
    let mut pane = FileBrowserPane::new("ws".to_string());
    // Nothing selected: "down" goes to the second row, "up" from the top wraps.
    let (ev, handled) = pane.handle_key_down("down");
    assert!(handled);
    assert_eq!(selected_path(&ev.unwrap()).as_deref(), Some("src/main.rs"));
    let (ev, _) = pane.handle_key_down("up");
    assert_eq!(selected_path(&ev.unwrap()).as_deref(), Some("src"));
    let (ev, _) = pane.handle_key_down("up");
    assert_eq!(selected_path(&ev.unwrap()).as_deref(), Some("README.md"));
    let (ev, _) = pane.handle_key_down("down");
    assert_eq!(selected_path(&ev.unwrap()).as_deref(), Some("src"));
    // Other keys are ignored.
    let (ev, handled) = pane.handle_key_down("x");
    assert!(ev.is_none());
    assert!(!handled);
    assert_eq!(pane.active_state().selection, Some(1));
}

#[test]
fn pane_expand_and_collapse_selected() {
    let mut pane = FileBrowserPane::new("ws".to_string());
    pane.select_entry(4);
    // Expanding a collapsed directory expands it and emits nothing.
    let (ev, _) = pane.handle_key_down("right");
    assert!(ev.is_none());
    assert_eq!(pane.active_state().expanded_dir_ids, vec![4]);
    // Expanding again leaves it.
    let (ev, _) = pane.handle_key_down("enter");
    assert!(ev.is_none());
    assert_eq!(pane.active_state().expanded_dir_ids, vec![4]);
    // Collapsing an expanded directory collapses it.
    let (ev, _) = pane.handle_key_down("left");
    assert!(ev.is_none());
    assert!(pane.active_state().expanded_dir_ids.is_empty());
    // Collapsing a collapsed nested entry selects the last directory one level up.
    let (ev, _) = pane.handle_key_down("left");
    assert_eq!(selected_path(&ev.unwrap()).as_deref(), Some("src"));
    // A file asks to be opened.
    pane.select_entry(2);
    let (ev, _) = pane.handle_key_down(" ");
    match ev {
        Some(FileBrowserPaneEvent::OpenFile(p)) => assert_eq!(p, "src/main.rs"),
        _ => panic!("expected an open request"),
    }
}

#[test]
fn pane_click_toggles_and_selects() {
    let mut pane = FileBrowserPane::new("ws".to_string());
    let ev = pane.handle_entry_click(1, true);
    assert_eq!(selected_path(&ev).as_deref(), Some("src"));
    assert_eq!(pane.active_state().expanded_dir_ids, vec![1]);
    let ev = pane.handle_entry_click(1, true);
    assert_eq!(selected_path(&ev).as_deref(), Some("src"));
    assert!(pane.active_state().expanded_dir_ids.is_empty());
    // Selecting an id that is not visible announces no path.
    let ev = pane.select_entry(42);
    assert_eq!(selected_path(&ev), None);
}

#[test]
fn pane_keeps_state_per_workspace() {
    let mut pane = FileBrowserPane::new("one".to_string());
    pane.toggle_expanded(1);
    pane.set_active_workspace("two".to_string());
    assert!(pane.active_state().expanded_dir_ids.is_empty());
    assert_eq!(pane.active_state().visible_entries.len(), 6);
    pane.set_active_workspace("one".to_string());
    assert_eq!(pane.active_state().expanded_dir_ids, vec![1]);
}

#[test]
fn pane_entry_details_reflect_state() {
    let mut pane = FileBrowserPane::new("ws".to_string());
    pane.toggle_expanded(4);
    pane.select_entry(4);
    let entries = FileBrowserPane::create_placeholder_tree();
    let d = pane.entry_details(&entries[3]);
    assert_eq!(d.filename, "file_browser");
    assert!(d.is_expanded && d.is_selected && !d.is_marked);
    let d = pane.entry_details(&entries[0]);
    assert!(!d.is_expanded && !d.is_selected);
}

#[test]
fn git_status_color_mappings() {
    assert_eq!(git_status_color("A"), GitStatusColor::Created);
    assert_eq!(git_status_color("?"), GitStatusColor::Created);
    assert_eq!(git_status_color("M"), GitStatusColor::Modified);
    assert_eq!(git_status_color("D"), GitStatusColor::Deleted);
    assert_eq!(git_status_color("C"), GitStatusColor::Conflict);
    assert_eq!(git_status_color("X"), GitStatusColor::Text);
    assert_eq!(git_status_color(""), GitStatusColor::Text);
}

#[test]
fn expand_several_then_collapse_in_another_order_restores() {
    let original = vec![1u64, 5, 9];
    let mut v = original.clone();
    for x in [3u64, 7, 12, 0] {
        expand_dir(x, &mut v);
    }
    assert_eq!(v, vec![0, 1, 3, 5, 7, 9, 12]);
    for x in [7u64, 0, 12, 3, 7] {
        collapse_dir(x, &mut v);
    }
    assert_eq!(v, original);
}

#[test]
fn one_more_component_is_one_level_deeper() {
    for (base, joined) in [
        ("src", "src/lib.rs"),
        ("src/", "src/lib.rs"),
        ("/", "/etc"),
        (".", "./a"),
        ("a/../b", "a/../b/c"),
        ("..", "../x"),
    ] {
        assert_eq!(calculate_depth(joined), calculate_depth(base) + 1, "{base} -> {joined}");
    }
}

#[test]
fn left_on_a_nested_file_selects_its_parent() {
    let mut pane = FileBrowserPane::new("ws".to_string());
    pane.select_entry(3);
    let (ev, handled) = pane.handle_key_down("left");
    assert!(handled);
    assert_eq!(selected_path(&ev.unwrap()).as_deref(), Some("src"));
    assert_eq!(pane.active_state().selection, Some(1));
    // A top-level entry has no parent: nothing changes.
    pane.select_entry(5);
    let (ev, _) = pane.handle_key_down("left");
    assert!(ev.is_none());
    assert_eq!(pane.active_state().selection, Some(5));
}

use terminalg::terminal::element::{
    build_lines_from_content, cursor_in_viewport, CursorPoint, DisplayCursor, TerminalCell,
    TerminalContentSnapshot,
};
use terminalg::terminal::pane::{
    clamp_active_index, key_input_bytes, open_target_location, resolve_open_path,
    strip_line_col_suffix, NavigationTarget, TerminalEvent, TerminalPane, TerminalPaneEvent,
};
use terminalg::terminal::tab::TerminalTab;

#[test]
fn clamp_active_index_handles_empty() {
    assert_eq!(clamp_active_index(0, 0), None);
    assert_eq!(clamp_active_index(3, 0), None);
}

#[test]
fn clamp_active_index_within_bounds() {
    assert_eq!(clamp_active_index(0, 1), Some(0));
    assert_eq!(clamp_active_index(2, 5), Some(2));
}

#[test]
fn clamp_active_index_out_of_bounds() {
    assert_eq!(clamp_active_index(5, 2), Some(1));
}

#[test]
fn strip_line_col_suffix_no_suffix() {
    assert_eq!(strip_line_col_suffix("src/main.rs"), "src/main.rs");
}

#[test]
fn strip_line_col_suffix_line_only() {
    assert_eq!(strip_line_col_suffix("src/main.rs:12"), "src/main.rs");
}

#[test]
fn strip_line_col_suffix_line_col() {
    assert_eq!(strip_line_col_suffix("src/main.rs:12:5"), "src/main.rs");
}

#[test]
fn strip_line_col_suffix_windows_drive() {
    assert_eq!(
        strip_line_col_suffix("C:\\path\\file.rs"),
        "C:\\path\\file.rs"
    );
    assert_eq!(
        strip_line_col_suffix("C:\\path\\file.rs:12:3"),
        "C:\\path\\file.rs"
    );
}

#[test]
fn strip_line_col_suffix_non_numeric_tail() {
    assert_eq!(strip_line_col_suffix("/tmp/foo:bar"), "/tmp/foo:bar");
}

#[test]
fn strip_line_col_suffix_edge_cases() {
    // An empty tail counts as digits.
    assert_eq!(strip_line_col_suffix("foo:"), "foo");
    assert_eq!(strip_line_col_suffix("a:b:7"), "a:b");
    assert_eq!(strip_line_col_suffix("a:1:2:3"), "a:1");
    assert_eq!(strip_line_col_suffix(""), "");
    assert_eq!(strip_line_col_suffix("é:1"), "é");
}

#[test]
fn resolve_open_path_joins_relative_paths() {
    assert_eq!(resolve_open_path("src/main.rs:3", Some("/home/u/proj")), "/home/u/proj/src/main.rs");
    assert_eq!(resolve_open_path("src/main.rs", Some("/home/u/proj/")), "/home/u/proj/src/main.rs");
    assert_eq!(resolve_open_path("/etc/hosts:1:1", Some("/home")), "/etc/hosts");
    assert_eq!(resolve_open_path("a.txt", None), "a.txt");
    assert_eq!(resolve_open_path("a.txt", Some("")), "a.txt");
    let joined = std::path::Path::new("/home/u").join("src/x.rs");
    assert_eq!(resolve_open_path("src/x.rs", Some("/home/u")), joined.to_str().unwrap());
}

#[test]
fn open_target_location_urls_and_paths() {
    let url = NavigationTarget::Url("https://example.com".to_string());
    assert_eq!(open_target_location(&url), "https://example.com");
    let path = NavigationTarget::PathLike {
        maybe_path: "lib.rs:10".to_string(),
        terminal_dir: Some("/w".to_string()),
    };
    assert_eq!(open_target_location(&path), "/w/lib.rs");
}

#[test]
fn key_input_bytes_adds_escape_for_meta() {
    assert_eq!(key_input_bytes("a", false, false, false), b"a".to_vec());
    assert_eq!(key_input_bytes("a", true, false, false), vec![0x1b, b'a']);
    assert_eq!(key_input_bytes("a", false, true, true), vec![0x1b, b'a']);
    assert_eq!(key_input_bytes("a", false, true, false), b"a".to_vec());
    assert_eq!(key_input_bytes("é", false, false, false), "é".as_bytes().to_vec());
}

#[test]
fn tab_titles() {
    let mut tab = TerminalTab::new(7, Some("/home/u/project".to_string()));
    assert_eq!(tab.title(), "project");
    assert_eq!(tab.terminal(), 7);
    tab.set_title("build");
    assert_eq!(tab.title(), "build");
    let mut tab = TerminalTab::new(8, None);
    assert_eq!(tab.title(), "Terminal");
    tab.set_working_directory(Some("/".to_string()));
    assert_eq!(tab.title(), "Terminal");
    assert_eq!(tab.working_directory().map(|d| d.as_str()), Some("/"));
    assert!(tab.matches_terminal(8));
    assert!(!tab.matches_terminal(7));
}

#[test]
fn pane_spawns_and_closes_tabs() {
    let (mut pane, req) = TerminalPane::new("ws".to_string(), Some("/w".to_string()));
    assert_eq!(req.workspace_id, "ws");
    assert_eq!(req.working_directory.as_deref(), Some("/w"));
    assert!(pane.active_tab().is_none());
    pane.terminal_spawned("ws".to_string(), 1, Some("/w".to_string()));
    pane.terminal_spawned("ws".to_string(), 2, Some("/w".to_string()));
    assert_eq!(pane.active_tab().map(|t| t.terminal()), Some(2));
    assert_eq!(pane.active_tab_index(), 1);
    pane.switch_tab(0);
    assert_eq!(pane.active_tab().map(|t| t.terminal()), Some(1));
    pane.switch_tab(5);
    assert_eq!(pane.active_tab_index(), 0);
    // Closing the active tab keeps the index on an existing tab.
    assert_eq!(pane.close_active_tab(), None);
    assert_eq!(pane.active_tab().map(|t| t.terminal()), Some(2));
    assert_eq!(pane.close_terminal_by_id(99), None);
    // Closing the last tab of the active workspace asks to close the pane.
    assert_eq!(pane.close_terminal_by_id(2), Some(TerminalPaneEvent::Close));
    assert!(pane.active_tab().is_none());
    let req = pane.new_tab_request();
    assert_eq!(req.working_directory.as_deref(), Some("/w"));
}

#[test]
fn pane_switches_workspaces_lazily() {
    let (mut pane, _) = TerminalPane::new("a".to_string(), None);
    pane.terminal_spawned("a".to_string(), 1, None);
    let req = pane.set_active_workspace("b".to_string(), Some("/b".to_string()));
    assert_eq!(req.map(|r| r.workspace_id), Some("b".to_string()));
    assert!(pane.active_tab().is_none());
    pane.terminal_spawned("b".to_string(), 2, Some("/b".to_string()));
    assert!(pane.set_active_workspace("a".to_string(), None).is_none());
    assert_eq!(pane.active_tab().map(|t| t.terminal()), Some(1));
    // Closing a terminal of another workspace does not close the pane.
    assert_eq!(pane.close_terminal_by_id(2), None);
}

#[test]
fn pane_hover_state() {
    let (mut pane, _) = TerminalPane::new("a".to_string(), None);
    let url = NavigationTarget::Url("https://x.org".to_string());
    pane.set_navigation_target(Some(&url));
    assert_eq!(pane.hovered_url().map(|u| u.as_str()), Some("https://x.org"));
    assert!(!pane.mouse_moved(true));
    assert!(pane.hovered_url().is_some());
    assert!(pane.mouse_moved(false));
    assert!(pane.hovered_url().is_none());
    assert!(!pane.mouse_moved(false));
    let p = NavigationTarget::PathLike { maybe_path: "x".to_string(), terminal_dir: None };
    pane.set_navigation_target(Some(&url));
    pane.set_navigation_target(Some(&p));
    assert!(pane.hovered_url().is_none());
}

#[test]
fn screen_lines_grouped_by_line() {
    let cells = vec![
        TerminalCell { line: 1, c: 'b' },
        TerminalCell { line: -2, c: 'x' },
        TerminalCell { line: 1, c: 'c' },
        TerminalCell { line: 0, c: 'a' },
        TerminalCell { line: -2, c: 'y' },
    ];
    assert_eq!(build_lines_from_content(&cells), vec!["xy", "a", "bc"]);
    assert!(build_lines_from_content(&[]).is_empty());
}

#[test]
fn display_cursor_and_viewport() {
    let c = DisplayCursor::from(CursorPoint { line: -3, column: 4 }, 5);
    assert_eq!(c.line(), 2);
    assert_eq!(c.col(), 4);
    assert!(cursor_in_viewport(c, 3));
    assert!(!cursor_in_viewport(c, 2));
    assert!(!cursor_in_viewport(DisplayCursor { line: -1, col: 0 }, 10));
    let snap = TerminalContentSnapshot::from_content(
        &[TerminalCell { line: 0, c: '$' }],
        CursorPoint { line: 0, column: 1 },
        0,
        24,
    );
    assert_eq!(snap.lines, vec!["$"]);
    assert_eq!(snap.display_cursor_line, 0);
    assert_eq!(snap.cursor_col, 1);
    assert_eq!(snap.viewport_rows, 24);
}

#[test]
fn pane_reacts_to_terminal_events() {
    let (mut pane, _) = TerminalPane::new("a".to_string(), None);
    pane.terminal_spawned("a".to_string(), 5, None);
    assert_eq!(
        pane.handle_terminal_event(5, &TerminalEvent::TitleChanged),
        (Some(TerminalPaneEvent::TitleChanged), None)
    );
    assert_eq!(pane.handle_terminal_event(5, &TerminalEvent::Bell), (None, None));
    let open = TerminalEvent::Open(NavigationTarget::PathLike {
        maybe_path: "b.rs:4:2".to_string(),
        terminal_dir: Some("/src".to_string()),
    });
    assert_eq!(pane.handle_terminal_event(5, &open), (None, Some("/src/b.rs".to_string())));
    let hover = TerminalEvent::NewNavigationTarget(Some(NavigationTarget::Url("u".to_string())));
    pane.handle_terminal_event(5, &hover);
    assert_eq!(pane.hovered_url().map(|s| s.as_str()), Some("u"));
    assert_eq!(
        pane.handle_terminal_event(5, &TerminalEvent::CloseTerminal),
        (Some(TerminalPaneEvent::Close), None)
    );
    assert!(pane.active_tab().is_none());
}

#[test]
fn active_tab_mut_writes_into_the_shown_tab() {
    let (mut pane, _) = TerminalPane::new("a".to_string(), None);
    assert!(pane.active_tab_mut().is_none());
    pane.terminal_spawned("a".to_string(), 1, None);
    pane.terminal_spawned("a".to_string(), 2, None);
    if let Some(tab) = pane.active_tab_mut() {
        tab.set_title("logs");
    }
    assert_eq!(pane.active_tab().map(|t| t.title()), Some("logs".to_string()));
    pane.switch_tab(0);
    assert_eq!(pane.active_tab().map(|t| t.title()), Some("Terminal".to_string()));
}

#[test]
fn switching_back_shows_the_same_terminal() {
    let (mut pane, _) = TerminalPane::new("a".to_string(), None);
    pane.terminal_spawned("a".to_string(), 1, None);
    pane.terminal_spawned("a".to_string(), 2, None);
    pane.switch_tab(0);
    assert!(pane.set_active_workspace("b".to_string(), None).is_some());
    assert!(pane.set_active_workspace("a".to_string(), None).is_none());
    assert_eq!(pane.active_tab().map(|t| t.terminal()), Some(1));
    assert_eq!(pane.active_workspace_tabs().map(|t| t.len()), Some(2));
}

#[test]
fn closing_a_new_terminal_restores_the_tabs() {
    let (mut pane, _) = TerminalPane::new("a".to_string(), None);
    pane.terminal_spawned("a".to_string(), 1, None);
    pane.terminal_spawned("a".to_string(), 2, Some("/x".to_string()));
    let before: Vec<(u64, String)> = pane
        .active_workspace_tabs()
        .unwrap()
        .iter()
        .map(|t| (t.terminal(), t.title()))
        .collect();
    pane.terminal_spawned("a".to_string(), 3, None);
    assert_eq!(pane.active_workspace_tabs().map(|t| t.len()), Some(3));
    assert_eq!(pane.close_terminal_by_id(3), None);
    let after: Vec<(u64, String)> = pane
        .active_workspace_tabs()
        .unwrap()
        .iter()
        .map(|t| (t.terminal(), t.title()))
        .collect();
    assert_eq!(before, after);
}

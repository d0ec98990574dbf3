use filesync::app::{clamp_one, App, AppMode, LocalEntry, Panel};
use filesync::events::Effect;
use filesync::ssh::RemoteEntry;

fn local(name: &str, is_dir: bool) -> LocalEntry {
    LocalEntry { name: name.to_string(), path: format!("/home/u/{}", name), is_dir, size: 1 }
}

fn remote(name: &str, is_dir: bool) -> RemoteEntry {
    RemoteEntry { name: name.to_string(), path: format!("/srv/{}", name), is_dir, size: 2 }
}

fn sample() -> App {
    App::new(
        "alice",
        "example.org",
        "/home/u".to_string(),
        vec![local("docs", true), local("a.txt", false), local("b.txt", false)],
        "/srv".to_string(),
        vec![remote("www", true), remote("x.log", false)],
    )
}

#[test]
fn new_state() {
    let app = sample();
    assert_eq!(app.remote_host_label, "alice@example.org");
    assert_eq!(app.active_panel, Panel::Local);
    assert_eq!(app.mode, AppMode::Browse);
    assert_eq!(app.visible_height, 20);
    assert_eq!(app.local_cursor, 0);
    assert!(!app.show_hidden);
    assert!(!app.transfer_active);
}

#[test]
fn clamp_one_moves_window_minimally() {
    let mut s = 0;
    clamp_one(25, &mut s, 10);
    assert_eq!(s, 16);
    let mut s = 20;
    clamp_one(5, &mut s, 10);
    assert_eq!(s, 5);
    let mut s = 3;
    clamp_one(7, &mut s, 10);
    assert_eq!(s, 3);
    let mut s = 3;
    clamp_one(12, &mut s, 10);
    assert_eq!(s, 3);
    let mut s = 3;
    clamp_one(13, &mut s, 10);
    assert_eq!(s, 4);
}

#[test]
fn cursor_stops_at_both_ends() {
    let mut app = sample();
    app.move_cursor_up();
    assert_eq!(app.local_cursor, 0);
    app.move_cursor_down();
    app.move_cursor_down();
    app.move_cursor_down();
    assert_eq!(app.local_cursor, 2);
    app.move_cursor_up();
    assert_eq!(app.local_cursor, 1);
}

#[test]
fn cursor_moves_in_the_active_panel_only() {
    let mut app = sample();
    app.switch_panel();
    assert_eq!(app.active_panel, Panel::Remote);
    app.move_cursor_down();
    assert_eq!(app.remote_cursor, 1);
    assert_eq!(app.local_cursor, 0);
    app.switch_panel();
    assert_eq!(app.active_panel, Panel::Local);
}

#[test]
fn scroll_follows_cursor() {
    let entries: Vec<LocalEntry> = (0..50).map(|i| local(&format!("f{:02}", i), false)).collect();
    let mut app = App::new("u", "h", "/".to_string(), entries, "/".to_string(), vec![]);
    app.visible_height = 5;
    for _ in 0..7 {
        app.move_cursor_down();
    }
    assert_eq!(app.local_cursor, 7);
    assert_eq!(app.local_scroll, 3);
    app.move_page_down();
    assert_eq!(app.local_cursor, 12);
    assert_eq!(app.local_scroll, 8);
    app.move_to_bottom();
    assert_eq!(app.local_cursor, 49);
    assert_eq!(app.local_scroll, 45);
    app.move_page_up();
    assert_eq!(app.local_cursor, 44);
    assert_eq!(app.local_scroll, 44);
    app.move_to_top();
    assert_eq!(app.local_cursor, 0);
    assert_eq!(app.local_scroll, 0);
}

#[test]
fn toggle_select_flips_and_moves_down() {
    let mut app = sample();
    app.toggle_select();
    assert!(app.local_selected.contains(&0));
    assert_eq!(app.local_cursor, 1);
    app.move_cursor_up();
    app.toggle_select();
    assert!(!app.local_selected.contains(&0));
    assert_eq!(app.local_cursor, 1);
}

#[test]
fn toggle_select_on_empty_panel_selects_nothing() {
    let mut app = App::new("u", "h", "/".to_string(), vec![], "/".to_string(), vec![]);
    app.toggle_select();
    assert!(app.local_selected.is_empty());
    assert_eq!(app.local_cursor, 0);
}

#[test]
fn toggle_hidden_asks_for_local_listing() {
    let mut app = sample();
    assert!(matches!(app.toggle_hidden(), Effect::ListLocal));
    assert!(app.show_hidden);
    app.toggle_hidden();
    assert!(!app.show_hidden);
}

#[test]
fn refresh_keeps_cursor_in_range_and_clears_selection() {
    let mut app = sample();
    app.move_cursor_down();
    app.move_cursor_down();
    app.toggle_select();
    assert!(!app.local_selected.is_empty());
    app.refresh_local(vec![local("only", false)]);
    assert_eq!(app.local_cursor, 0);
    assert!(app.local_selected.is_empty());
    assert_eq!(app.local_entries.len(), 1);
    app.refresh_local(vec![]);
    assert_eq!(app.local_cursor, 0);
}

#[test]
fn remote_listing_failure_shows_error() {
    let mut app = sample();
    app.refresh_remote(Err("permission denied".to_string()));
    assert_eq!(app.mode, AppMode::Error);
    assert_eq!(app.error_msg, "Failed to list remote dir: permission denied");
    assert_eq!(app.remote_entries.len(), 2);
    app.refresh_remote(Ok(vec![remote("new", false)]));
    assert_eq!(app.remote_entries.len(), 1);
}

#[test]
fn enter_dir_moves_into_directory() {
    let mut app = sample();
    assert!(matches!(app.enter_dir(), Effect::ListLocal));
    assert_eq!(app.local_cwd, "/home/u/docs");
    assert_eq!(app.local_cursor, 0);
    app.refresh_local(vec![local("inner", false)]);
    assert_eq!(app.local_entries[0].name, "inner");
}

#[test]
fn enter_dir_on_a_file_does_nothing() {
    let mut app = sample();
    app.move_cursor_down();
    assert!(matches!(app.enter_dir(), Effect::Nothing));
    assert_eq!(app.local_cwd, "/home/u");
    assert_eq!(app.local_cursor, 1);
}

#[test]
fn enter_remote_dir() {
    let mut app = sample();
    app.switch_panel();
    assert!(matches!(app.enter_dir(), Effect::ListRemote));
    assert_eq!(app.remote_cwd, "/srv/www");
}

#[test]
fn go_parent_moves_up_and_stops_at_root() {
    let mut app = sample();
    app.move_cursor_down();
    assert!(matches!(app.go_parent(), Effect::ListLocal));
    assert_eq!(app.local_cwd, "/home");
    assert_eq!(app.local_cursor, 0);
    assert!(matches!(app.go_parent(), Effect::ListLocal));
    assert_eq!(app.local_cwd, "/");
    assert!(matches!(app.go_parent(), Effect::Nothing));
    assert_eq!(app.local_cwd, "/");
}

#[test]
fn selected_entries_of_panels() {
    let mut app = sample();
    assert_eq!(app.selected_local_entries().len(), 1);
    assert_eq!(app.selected_local_entries()[0].name, "docs");
    app.move_cursor_down();
    app.toggle_select();
    app.toggle_select();
    let names: Vec<String> = app.selected_local_entries().iter().map(|e| e.name.clone()).collect();
    assert_eq!(names, vec!["a.txt", "b.txt"]);
    assert_eq!(app.selected_remote_entries()[0].name, "www");
}

#[test]
fn toggling_twice_restores_selection() {
    let mut app = sample();
    app.toggle_select();
    app.move_cursor_up();
    app.toggle_select();
    assert!(app.local_selected.is_empty());
}

#[test]
fn up_then_down_restores_cursor() {
    let mut app = sample();
    app.move_cursor_down();
    app.move_cursor_up();
    app.move_cursor_down();
    assert_eq!(app.local_cursor, 1);
    app.move_cursor_down();
    app.move_cursor_up();
    assert_eq!(app.local_cursor, 1);
}

#[test]
fn clamp_with_no_rows_ends_at_cursor() {
    let mut s = 3;
    clamp_one(9, &mut s, 0);
    assert_eq!(s, 9);
    let mut s = 12;
    clamp_one(4, &mut s, 0);
    assert_eq!(s, 4);
}

#[test]
fn going_up_undoes_entering() {
    let mut app = sample();
    app.toggle_select();
    app.move_cursor_up();
    assert!(matches!(app.enter_dir(), Effect::ListLocal));
    app.refresh_local(vec![local("x", false), local("y", false)]);
    app.move_cursor_down();
    assert!(matches!(app.go_parent(), Effect::ListLocal));
    assert_eq!(app.local_cwd, "/home/u");
    assert_eq!(app.local_cursor, 0);
    assert_eq!(app.local_scroll, 0);
    app.refresh_local(vec![local("docs", true), local("a.txt", false)]);
    assert!(app.local_selected.is_empty());
}

#[test]
fn going_up_from_root_changes_nothing() {
    let mut app = App::new("u", "h", "/".to_string(), vec![], "/".to_string(), vec![]);
    assert!(matches!(app.go_parent(), Effect::Nothing));
    assert_eq!(app.local_cwd, "/");
    app.switch_panel();
    assert!(matches!(app.go_parent(), Effect::Nothing));
    assert_eq!(app.remote_cwd, "/");
}

#[test]
fn going_up_undoes_entering_by_components() {
    let dir = |name: &str, path: &str| LocalEntry { name: name.to_string(), path: path.to_string(), is_dir: true, size: 0 };
    for (cwd, entry) in [("/home/u/", "/home/u/docs"), ("/home//u", "/home//u/docs"), ("proj", "proj/docs"), ("", "docs")] {
        let mut app = App::new("u", "h", cwd.to_string(), vec![dir("docs", entry)], "/".to_string(), vec![]);
        assert!(matches!(app.enter_dir(), Effect::ListLocal));
        assert_eq!(app.local_cwd, entry);
        app.refresh_local(vec![]);
        assert!(matches!(app.go_parent(), Effect::ListLocal));
        assert_eq!(std::path::Path::new(&app.local_cwd), std::path::Path::new(cwd));
        assert_eq!(app.local_cursor, 0);
    }
}

#[test]
fn going_up_without_components_changes_nothing() {
    for cwd in ["//", "/.", ""] {
        let mut app = App::new("u", "h", cwd.to_string(), vec![], "/".to_string(), vec![]);
        assert!(matches!(app.go_parent(), Effect::Nothing));
        assert_eq!(app.local_cwd, cwd);
    }
}

use filesync::app::{App, AppMode, ConfirmAction, LocalEntry, Panel};
use filesync::events::{Effect, Key, MouseKind};
use filesync::file_ops::ProgressState;
use filesync::ssh::RemoteEntry;
use filesync::ui::Area;

fn local(name: &str, is_dir: bool) -> LocalEntry {
    LocalEntry { name: name.to_string(), path: format!("/home/u/{}", name), is_dir, size: 1 }
}

fn remote(name: &str, is_dir: bool) -> RemoteEntry {
    RemoteEntry { name: name.to_string(), path: format!("/srv/{}", name), is_dir, size: 2 }
}

fn sample() -> App {
    App::new(
        "alice",
        "example.org",
        "/home/u".to_string(),
        vec![local("docs", true), local("a.txt", false), local("b.txt", false)],
        "/srv".to_string(),
        vec![remote("www", true), remote("x.log", false)],
    )
}

#[test]
fn q_quits() {
    let mut app = sample();
    assert!(matches!(app.handle_key(Key::Char('q')), Effect::Quit));
    assert!(matches!(app.handle_key(Key::Char('Q')), Effect::Quit));
}

#[test]
fn tab_twice_returns() {
    let mut app = sample();
    app.handle_key(Key::Tab);
    assert_eq!(app.active_panel, Panel::Remote);
    app.handle_key(Key::Tab);
    assert_eq!(app.active_panel, Panel::Local);
}

#[test]
fn vi_keys_move_the_cursor() {
    let mut app = sample();
    app.handle_key(Key::Char('j'));
    app.handle_key(Key::Down);
    assert_eq!(app.local_cursor, 2);
    app.handle_key(Key::Char('k'));
    assert_eq!(app.local_cursor, 1);
    app.handle_key(Key::Up);
    assert_eq!(app.local_cursor, 0);
}

#[test]
fn open_and_back_keys() {
    let mut app = sample();
    assert!(matches!(app.handle_key(Key::Enter), Effect::ListLocal));
    assert_eq!(app.local_cwd, "/home/u/docs");
    assert!(matches!(app.handle_key(Key::Char('h')), Effect::ListLocal));
    assert_eq!(app.local_cwd, "/home/u");
    assert!(matches!(app.handle_key(Key::Char('l')), Effect::ListLocal));
    assert!(matches!(app.handle_key(Key::Backspace), Effect::ListLocal));
    assert!(matches!(app.handle_key(Key::Right), Effect::ListLocal));
    assert!(matches!(app.handle_key(Key::Left), Effect::ListLocal));
}

#[test]
fn refresh_key_lists_active_panel() {
    let mut app = sample();
    assert!(matches!(app.handle_key(Key::Char('r')), Effect::ListLocal));
    app.handle_key(Key::Tab);
    assert!(matches!(app.handle_key(Key::Char('r')), Effect::ListRemote));
}

#[test]
fn space_selects_and_h_toggles_hidden() {
    let mut app = sample();
    app.handle_key(Key::Char(' '));
    assert!(app.local_selected.contains(&0));
    assert!(matches!(app.handle_key(Key::Char('H')), Effect::ListLocal));
    assert!(app.show_hidden);
}

#[test]
fn unknown_keys_do_nothing() {
    let mut app = sample();
    assert!(matches!(app.handle_key(Key::Char('z')), Effect::Nothing));
    assert!(matches!(app.handle_key(Key::Other), Effect::Nothing));
    assert!(matches!(app.handle_key(Key::Esc), Effect::Nothing));
    assert_eq!(app.mode, AppMode::Browse);
}

#[test]
fn delete_asks_then_acts_on_selection() {
    let mut app = sample();
    app.handle_key(Key::Down);
    app.handle_key(Key::Char(' '));
    app.handle_key(Key::Char(' '));
    app.handle_key(Key::Char('d'));
    assert_eq!(app.mode, AppMode::Confirm(ConfirmAction::Delete));
    match app.handle_key(Key::Char('y')) {
        Effect::DeleteLocal(v) => {
            let names: Vec<String> = v.iter().map(|e| e.name.clone()).collect();
            assert_eq!(names, vec!["a.txt", "b.txt"]);
        }
        _ => panic!("expected a deletion"),
    }
    assert_eq!(app.mode, AppMode::Browse);
}

#[test]
fn any_other_key_cancels_prompt() {
    let mut app = sample();
    app.handle_key(Key::Delete);
    assert_eq!(app.mode, AppMode::Confirm(ConfirmAction::Delete));
    assert!(matches!(app.handle_key(Key::Char('n')), Effect::Nothing));
    assert_eq!(app.mode, AppMode::Browse);
}

#[test]
fn remote_delete_uses_cursor_entry() {
    let mut app = sample();
    app.handle_key(Key::Tab);
    app.handle_key(Key::Char('d'));
    match app.handle_key(Key::Char('Y')) {
        Effect::DeleteRemote(v) => {
            assert_eq!(v.len(), 1);
            assert_eq!(v[0].name, "www");
        }
        _ => panic!("expected a deletion"),
    }
}

#[test]
fn copy_starts_upload_to_remote_dir() {
    let mut app = sample();
    app.handle_key(Key::Char('c'));
    assert_eq!(app.mode, AppMode::Confirm(ConfirmAction::Copy));
    match app.handle_key(Key::Char('y')) {
        Effect::Upload(v, dest) => {
            assert_eq!(v.len(), 1);
            assert_eq!(v[0].name, "docs");
            assert_eq!(dest, "/srv");
        }
        _ => panic!("expected an upload"),
    }
    assert!(app.transfer_active);
}

#[test]
fn copy_from_remote_downloads_to_local_dir() {
    let mut app = sample();
    app.handle_key(Key::Tab);
    app.handle_key(Key::Down);
    app.handle_key(Key::Char('c'));
    match app.handle_key(Key::Char('y')) {
        Effect::Download(v, dest) => {
            assert_eq!(v[0].name, "x.log");
            assert_eq!(dest, "/home/u");
        }
        _ => panic!("expected a download"),
    }
}

#[test]
fn copy_with_nothing_to_copy_does_nothing() {
    let mut app = App::new("u", "h", "/".to_string(), vec![], "/".to_string(), vec![]);
    app.handle_key(Key::Char('c'));
    assert!(matches!(app.handle_key(Key::Char('y')), Effect::Nothing));
    assert!(!app.transfer_active);
}

#[test]
fn no_prompts_while_transferring_and_esc_cancels() {
    let mut app = sample();
    app.handle_key(Key::Char('c'));
    app.handle_key(Key::Char('y'));
    assert!(app.transfer_active);
    app.handle_key(Key::Char('d'));
    assert_eq!(app.mode, AppMode::Browse);
    app.handle_key(Key::Char('c'));
    assert_eq!(app.mode, AppMode::Browse);
    assert!(matches!(app.handle_key(Key::Esc), Effect::CancelTransfer));
}

#[test]
fn messages_are_dismissed_by_any_key() {
    let mut app = sample();
    app.refresh_remote(Err("boom".to_string()));
    assert_eq!(app.mode, AppMode::Error);
    assert!(matches!(app.handle_key(Key::Char('q')), Effect::Nothing));
    assert_eq!(app.mode, AppMode::Browse);
    assert_eq!(app.error_msg, "");
    app.finish_delete_local(None, vec![local("z", false)]);
    assert_eq!(app.mode, AppMode::Status);
    assert_eq!(app.status_msg, "Deleted successfully.");
    app.handle_key(Key::Enter);
    assert_eq!(app.mode, AppMode::Browse);
    assert_eq!(app.status_msg, "");
}

#[test]
fn failed_deletion_reports_error() {
    let mut app = sample();
    app.finish_delete_local(Some("remove_file \"/x\"".to_string()), vec![]);
    assert_eq!(app.mode, AppMode::Error);
    assert_eq!(app.error_msg, "Delete error: remove_file \"/x\"");
    assert!(app.local_entries.is_empty());
}

#[test]
fn remote_deletion_outcomes() {
    let mut app = sample();
    app.finish_delete_remote(None, Ok(vec![]));
    assert_eq!(app.mode, AppMode::Status);
    assert!(app.remote_entries.is_empty());
    let mut app = sample();
    app.finish_delete_remote(None, Err("gone".to_string()));
    assert_eq!(app.mode, AppMode::Status);
    assert_eq!(app.error_msg, "Failed to list remote dir: gone");
    let mut app = sample();
    app.finish_delete_remote(Some("denied".to_string()), Err("gone".to_string()));
    assert_eq!(app.mode, AppMode::Error);
    assert_eq!(app.error_msg, "Failed to list remote dir: gone");
}

fn running() -> App {
    let mut app = sample();
    app.handle_key(Key::Char('c'));
    app.handle_key(Key::Char('y'));
    app
}

#[test]
fn progress_snapshots_update_display() {
    let mut app = running();
    let mut p = ProgressState::for_files(3);
    p.bytes_done = 100;
    assert!(matches!(app.on_transfer_progress(p), Effect::Nothing));
    assert_eq!(app.progress.bytes_done, 100);
    assert_eq!(app.progress.files_total, 3);
    let mut q = ProgressState::for_files(4);
    q.bytes_done = 100;
    app.on_transfer_progress(q);
    assert_eq!(app.progress.files_total, 3);
    assert!(app.transfer_active);
}

#[test]
fn completed_transfer_asks_for_listings() {
    let mut app = running();
    let mut p = ProgressState::for_files(1);
    p.finished = true;
    p.bytes_total = 10;
    assert!(matches!(app.on_transfer_progress(p), Effect::ListBoth));
    assert!(!app.transfer_active);
    assert_eq!(app.mode, AppMode::Status);
    assert_eq!(app.status_msg, "Transfer complete!");
    assert_eq!(app.progress.bytes_total, 0);
}

#[test]
fn cancelled_and_failed_transfers() {
    let mut app = running();
    let mut p = ProgressState::for_files(1);
    p.finished = true;
    p.cancelled = true;
    assert!(matches!(app.on_transfer_progress(p), Effect::Nothing));
    assert_eq!(app.status_msg, "Transfer cancelled.");
    let mut app = running();
    let mut p = ProgressState::for_files(1);
    p.finished = true;
    p.error = Some("disk full".to_string());
    assert!(matches!(app.on_transfer_progress(p), Effect::Nothing));
    assert_eq!(app.mode, AppMode::Error);
    assert_eq!(app.error_msg, "Transfer error: disk full");
}

fn placed() -> App {
    let mut app = sample();
    app.place_panels(Area { x: 0, y: 0, width: 40, height: 10 }, Area { x: 40, y: 0, width: 40, height: 10 });
    app
}

#[test]
fn panel_hits() {
    let app = placed();
    assert_eq!(app.panel_at(5, 5), Some(Panel::Local));
    assert_eq!(app.panel_at(45, 5), Some(Panel::Remote));
    assert_eq!(app.panel_at(85, 5), None);
    assert_eq!(app.panel_at(5, 10), None);
    assert_eq!(sample().panel_at(5, 5), None);
}

#[test]
fn wheel_asks_for_scroll() {
    let mut app = placed();
    assert!(matches!(app.handle_mouse(MouseKind::ScrollDown, 45, 3, 0), Effect::Scroll(Panel::Remote, 1)));
    assert!(matches!(app.handle_mouse(MouseKind::ScrollUp, 5, 3, 0), Effect::Scroll(Panel::Local, -1)));
    assert!(matches!(app.handle_mouse(MouseKind::ScrollUp, 99, 3, 0), Effect::Nothing));
    app.scroll_panel(Panel::Local, 1, 5);
    assert_eq!(app.local_cursor, 2);
    app.scroll_panel(Panel::Local, -1, 1);
    assert_eq!(app.local_cursor, 1);
    app.scroll_panel(Panel::Local, -1, 9);
    assert_eq!(app.local_cursor, 0);
}

#[test]
fn click_moves_cursor_and_double_click_opens() {
    let mut app = placed();
    assert!(matches!(app.handle_mouse(MouseKind::LeftDown, 45, 2, 1000), Effect::Nothing));
    assert_eq!(app.active_panel, Panel::Remote);
    assert_eq!(app.remote_cursor, 1);
    assert!(matches!(app.handle_mouse(MouseKind::LeftDown, 45, 1, 1100), Effect::Nothing));
    assert_eq!(app.remote_cursor, 0);
    assert!(matches!(app.handle_mouse(MouseKind::LeftDown, 45, 1, 1300), Effect::ListRemote));
    assert_eq!(app.remote_cwd, "/srv/www");
}

#[test]
fn slow_second_click_does_not_open() {
    let mut app = placed();
    app.handle_click(5, 1, 1000);
    assert!(matches!(app.handle_click(5, 1, 1400), Effect::Nothing));
    assert_eq!(app.local_cwd, "/home/u");
}

#[test]
fn border_and_empty_rows_only_activate() {
    let mut app = placed();
    assert!(matches!(app.handle_click(45, 0, 0), Effect::Nothing));
    assert_eq!(app.active_panel, Panel::Remote);
    assert_eq!(app.remote_cursor, 0);
    app.handle_click(5, 9, 0);
    assert_eq!(app.active_panel, Panel::Local);
    app.handle_click(5, 8, 0);
    assert_eq!(app.local_cursor, 0);
    app.handle_click(5, 3, 0);
    assert_eq!(app.local_cursor, 2);
}

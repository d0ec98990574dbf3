use filesync::app::{App, ConfirmAction, LocalEntry, Panel};
use filesync::file_ops::ProgressState;
use filesync::ui::{
    active_selection_count, centered_parts, centered_rect, confirm_text, file_item_text,
    file_item_text_with, help_items, help_split, needed_help_height, panel_halves, panel_title,
    progress_label, progress_label_with, screen_rows, Area, Extent, PanelRow,
    border_shade, RowLook, Shade,
};

fn local(name: &str) -> LocalEntry {
    LocalEntry { name: name.to_string(), path: format!("/d/{}", name), is_dir: false, size: 1 }
}

fn sample() -> App {
    App::new("alice", "example.org", "/d".to_string(), vec![local("a"), local("b")], "/srv".to_string(), vec![])
}

#[test]
fn legend_height_threshold() {
    assert_eq!(needed_help_height(134), 3);
    assert_eq!(needed_help_height(133), 4);
    assert_eq!(needed_help_height(0), 4);
    assert_eq!(needed_help_height(500), 3);
}

#[test]
fn legend_items() {
    let items = help_items();
    assert_eq!(items.len(), 10);
    assert_eq!(items[0], ("[Tab]", "Switch"));
    assert_eq!(items[9], ("[q]", "Quit"));
}

#[test]
fn legend_split_points() {
    assert_eq!(help_split(200), 10);
    assert_eq!(help_split(132), 10);
    assert_eq!(help_split(131), 9);
    assert_eq!(help_split(14), 1);
    assert_eq!(help_split(32), 2);
    assert_eq!(help_split(31), 1);
    assert_eq!(help_split(0), 1);
}

#[test]
fn file_rows() {
    assert_eq!(
        file_item_text("notes.txt", false, 512, false),
        format!(" {}{:<30}  {:>12}", "   ", "notes.txt", "512 B")
    );
    assert_eq!(
        file_item_text("src", true, 0, true),
        format!("*{}{:<30}  {}", " ▶ ", "src", "       <DIR>")
    );
    assert_eq!(file_item_text("big", false, 1024, false), format!("    {:<30}  {:>12}", "big", "1.0 KB"));
}

#[test]
fn long_names_are_cut_after_thirty_bytes() {
    let name = "abcdefghijklmnopqrstuvwxyz0123456789";
    assert_eq!(file_item_text(name, false, 0, false), format!("    {}  {:>12}", &name[..30], "0 B"));
    let wide = "ééééééééééééééééééééé";
    assert_eq!(file_item_text(wide, false, 0, false), format!("    {:<30}  {:>12}", &wide[..30], "0 B"));
}

#[test]
fn progress_labels() {
    let mut p = ProgressState::for_files(3);
    assert_eq!(progress_label(&p), " Transferring...");
    p.bytes_total = 2000;
    p.bytes_done = 999;
    p.files_done = 1;
    p.current_file = "a.bin".to_string();
    assert_eq!(progress_label(&p), " a.bin [999 B/2.0 KB]  1/3 files");
}

#[test]
fn confirm_texts() {
    let mut app = sample();
    assert_eq!(active_selection_count(&app), 1);
    let (t, b) = confirm_text(&app, ConfirmAction::Delete);
    assert_eq!(t, " Confirm Delete ");
    assert_eq!(b, "Delete 1 item(s)?  [y] Yes  [any] Cancel");
    app.toggle_select();
    app.toggle_select();
    assert_eq!(active_selection_count(&app), 2);
    let (t, b) = confirm_text(&app, ConfirmAction::Copy);
    assert_eq!(t, " Confirm Copy ");
    assert_eq!(b, "Copy 2 item(s) from local → remote?  [y] Yes  [any] Cancel");
    app.switch_panel();
    let (_, b) = confirm_text(&app, ConfirmAction::Copy);
    assert_eq!(b, "Copy 1 item(s) from remote → local?  [y] Yes  [any] Cancel");
}

#[test]
fn panel_titles() {
    let app = sample();
    assert_eq!(panel_title(&app, Panel::Local), " Local: /d ");
    assert_eq!(panel_title(&app, Panel::Remote), " Remote [alice@example.org]: /srv ");
}

#[test]
fn popup_is_centred() {
    let r = centered_rect(60, 20, Area { x: 0, y: 0, width: 100, height: 50 });
    assert_eq!(r, Area { x: 20, y: 20, width: 60, height: 10 });
}

#[test]
fn screen_layout_sets_rows() {
    let mut app = sample();
    let l = app.layout_screen(Area { x: 0, y: 0, width: 200, height: 40 });
    assert_eq!(l.progress_height, 0);
    assert_eq!(l.help_height, 3);
    assert_eq!(l.local.height, 37);
    assert_eq!(l.local.width, 100);
    assert_eq!(l.remote.x, 100);
    assert_eq!(app.visible_height, 35);
    assert_eq!(app.local_area, Some(l.local));
    let mut app = sample();
    let l = app.layout_screen(Area { x: 0, y: 0, width: 80, height: 40 });
    assert_eq!(l.help_height, 4);
}

#[test]
fn row_text_with_given_size_text() {
    assert_eq!(
        file_item_text_with("big.iso", false, "4.7 GB", true),
        format!("*   {:<30}  {:>12}", "big.iso", "4.7 GB")
    );
    assert_eq!(
        file_item_text_with("d", true, "ignored", false),
        format!("  ▶ {:<30}  {}", "d", "       <DIR>")
    );
}

#[test]
fn progress_label_with_given_size_texts() {
    let mut p = ProgressState::for_files(5);
    assert_eq!(progress_label_with(&p, "x", "y"), " Transferring...");
    p.set_total(3_000_000);
    p.start_file("movie.mkv".to_string());
    p.files_done = 2;
    assert_eq!(progress_label_with(&p, "1.5 MB", "3.0 MB"), " movie.mkv [1.5 MB/3.0 MB]  2/5 files");
}

#[test]
fn layout_requests() {
    assert_eq!(centered_parts(60), vec![Extent::Percentage(20), Extent::Percentage(60), Extent::Percentage(20)]);
    assert_eq!(centered_parts(20), vec![Extent::Percentage(40), Extent::Percentage(20), Extent::Percentage(40)]);
    assert_eq!(screen_rows(3, 4), vec![Extent::Min(5), Extent::Length(3), Extent::Length(4)]);
    assert_eq!(panel_halves(), vec![Extent::Percentage(50), Extent::Percentage(50)]);
}

#[test]
fn popup_is_wider_than_high_when_asked() {
    let r = centered_rect(60, 20, Area { x: 0, y: 0, width: 100, height: 100 });
    assert_eq!(r, Area { x: 20, y: 40, width: 60, height: 20 });
}

#[test]
fn screen_layout_with_transfer() {
    let mut app = sample();
    app.transfer_active = true;
    let l = app.layout_screen(Area { x: 0, y: 0, width: 200, height: 40 });
    assert_eq!(l.progress_height, 3);
    assert_eq!(l.panels.height, 34);
    assert_eq!(l.progress, Area { x: 0, y: 34, width: 200, height: 3 });
    assert_eq!(l.help, Area { x: 0, y: 37, width: 200, height: 3 });
    assert_eq!(l.local.width, 100);
    assert_eq!(l.remote.width, 100);
}

#[test]
fn panel_rows_show_the_window() {
    let mut app = sample();
    let rows: Vec<PanelRow> = app.panel_rows(Panel::Local, 5);
    assert_eq!(rows.len(), 2);
    assert_eq!(rows[0].index, 0);
    assert!(rows[0].at_cursor);
    assert!(!rows[1].at_cursor);
    assert_eq!(rows[1].text, format!("    {:<30}  {:>12}", "b", "1 B"));
    app.toggle_select();
    let rows = app.panel_rows(Panel::Local, 1);
    assert_eq!(rows.len(), 1);
    assert!(rows[0].selected);
    assert!(!rows[0].at_cursor);
    assert_eq!(rows[0].text, format!("*   {:<30}  {:>12}", "a", "1 B"));
    app.local_scroll = 1;
    let rows = app.panel_rows(Panel::Local, 5);
    assert_eq!(rows.len(), 1);
    assert_eq!(rows[0].index, 1);
    assert!(rows[0].at_cursor);
    assert!(app.panel_rows(Panel::Remote, 5).is_empty());
}

#[test]
fn row_and_border_colours() {
    let mut app = App::new(
        "u",
        "h",
        "/d".to_string(),
        vec![
            LocalEntry { name: "dir".to_string(), path: "/d/dir".to_string(), is_dir: true, size: 0 },
            local("f"),
        ],
        "/srv".to_string(),
        vec![],
    );
    assert_eq!(border_shade(&app, Panel::Local), Shade::Cyan);
    assert_eq!(border_shade(&app, Panel::Remote), Shade::DarkGray);
    let rows = app.panel_rows(Panel::Local, 5);
    assert_eq!(rows[0].look, RowLook { fg: Shade::Blue, highlighted: true });
    assert_eq!(rows[1].look, RowLook { fg: Shade::White, highlighted: false });
    app.toggle_select();
    let rows = app.panel_rows(Panel::Local, 5);
    assert_eq!(rows[0].look, RowLook { fg: Shade::Yellow, highlighted: false });
    assert_eq!(rows[1].look, RowLook { fg: Shade::White, highlighted: true });
    app.switch_panel();
    assert_eq!(border_shade(&app, Panel::Local), Shade::DarkGray);
    let rows = app.panel_rows(Panel::Local, 5);
    assert!(!rows[1].look.highlighted);
}

#[test]
fn size_texts_from_a_thousand_bytes() {
    assert_eq!(file_item_text("f", false, 999, false), format!("    {:<30}  {:>12}", "f", "999 B"));
    assert_eq!(file_item_text("f", false, 1000, false), format!("    {:<30}  {:>12}", "f", "1.0 KB"));
    assert_eq!(file_item_text("f", false, 5_000_000, false), format!("    {:<30}  {:>12}", "f", "5.0 MB"));
    assert_eq!(file_item_text("f", false, 1_000_000, false), format!("    {:<30}  {:>12}", "f", "1000.0 KB"));
}

#[test]
fn popup_edges_follow_the_margins() {
    let r = centered_rect(55, 33, Area { x: 3, y: 2, width: 97, height: 41 });
    // margins of 22 and 33 percent: 97 * 0.22 = 21.34, 97 * 0.77 = 74.69; 41 * 0.33 = 13.53, 41 * 0.66 = 27.06
    assert_eq!(r, Area { x: 3 + 21, y: 2 + 14, width: 75 - 21, height: 27 - 14 });
}

#[test]
fn panels_split_the_row_in_halves() {
    let mut app = sample();
    let l = app.layout_screen(Area { x: 0, y: 0, width: 81, height: 30 });
    assert_eq!(l.local.x, l.panels.x);
    assert_eq!(l.remote.x, l.local.x + l.local.width);
    assert_eq!(l.remote.x + l.remote.width, l.panels.x + l.panels.width);
    assert!(l.local.width == 40 || l.local.width == 41);
}

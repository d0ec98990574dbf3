//! Keys, mouse input and what the program must do outside the library in answer.

use vstd::prelude::*;
use vstd::string::*;
use crate::app::{App, AppMode, AppView, ConfirmAction, LocalEntry, Panel, last_index};
use crate::file_ops::{ProgressState, fresh_progress};
use crate::listing::ListedEntry;
use crate::ssh::RemoteEntry;
use crate::ui::{Area, area_holds};
use crate::util::picked;

verus! {

/// Work that the caller performs after a state change, then reports back.
#[derive(Debug)]
pub enum Effect {
    /// Nothing to do.
    Nothing,
    /// Leave the program.
    Quit,
    /// List `local_cwd` (hiding dot files unless `show_hidden`) and hand the entries to `refresh_local`.
    ListLocal,
    /// List `remote_cwd` and hand the outcome to `refresh_remote`.
    ListRemote,
    /// Both of the above, local first.
    ListBoth,
    /// Ask the running transfer to stop.
    CancelTransfer,
    /// Delete these local entries in order, stopping at the first failure, then call `finish_delete_local`.
    DeleteLocal(Vec<LocalEntry>),
    /// Delete these remote entries in order, stopping at the first failure, then call `finish_delete_remote`.
    DeleteRemote(Vec<RemoteEntry>),
    /// Start uploading these local entries into the remote directory given.
    Upload(Vec<LocalEntry>, String),
    /// Start downloading these remote entries into the local directory given.
    Download(Vec<RemoteEntry>, String),
    /// Scroll the panel by a step that depends on how fast wheel events arrive:
    /// down when the number is positive, up when negative.
    Scroll(Panel, i32),
}


/// A key press, as far as the file manager tells keys apart.
#[derive(Clone, Copy, PartialEq, Eq, Debug, Structural)]
pub enum Key {
    Char(char),
    Tab,
    Up,
    Down,
    PageUp,
    PageDown,
    Home,
    End,
    Enter,
    Left,
    Right,
    Backspace,
    Delete,
    Esc,
    Other,
}

/// A mouse event, as far as the file manager tells them apart.
#[derive(Clone, Copy, PartialEq, Eq, Debug, Structural)]
pub enum MouseKind {
    ScrollUp,
    ScrollDown,
    LeftDown,
    Other,
}

/// A click is a double click when it hits the entry of the previous click within
/// this many milliseconds.
pub const DOUBLE_CLICK_MS: u64 = 400;

/// The panel whose area holds the cell: the local panel's area is tried first;
/// without a known local area no panel is found.
pub open spec fn panel_hit(s: AppView, col: u16, row: u16) -> Option<Panel> {
    match s.local_area {
        None => None,
        Some(la) => if area_holds(la, col, row) {
            Some(Panel::Local)
        } else {
            match s.remote_area {
                None => None,
                Some(ra) => if area_holds(ra, col, row) {
                    Some(Panel::Remote)
                } else {
                    None
                },
            }
        },
    }
}

/// The cursor of `panel` moved by `step` entries: down when `delta` is positive,
/// stopping at the last entry, up when it is negative, stopping at the first.
pub open spec fn scrolled(s: AppView, panel: Panel, delta: i32, step: usize) -> AppView {
    match panel {
        Panel::Local => {
            let c = s.local_cursor;
            let last = last_index(s.local_entries.len());
            let n: usize = if delta > 0 {
                if c + step <= last { (c + step) as usize } else { last }
            } else if delta < 0 {
                if c >= step { (c - step) as usize } else { 0 }
            } else {
                c
            };
            AppView { local_cursor: n, ..s }.scrolls_clamped()
        },
        Panel::Remote => {
            let c = s.remote_cursor;
            let last = last_index(s.remote_entries.len());
            let n: usize = if delta > 0 {
                if c + step <= last { (c + step) as usize } else { last }
            } else if delta < 0 {
                if c >= step { (c - step) as usize } else { 0 }
            } else {
                c
            };
            AppView { remote_cursor: n, ..s }.scrolls_clamped()
        },
    }
}

/// A left click at a cell. Outside both panels nothing happens. On a panel's
/// border the panel becomes active. On a row past the panel's last entry the panel
/// becomes active. On an entry the panel becomes active and its cursor moves
/// there; a second click on the same entry within `DOUBLE_CLICK_MS` then opens
/// it as `dir_entered` does, and any other click is remembered.
pub open spec fn clicked(s: AppView, col: u16, row: u16, now_ms: u64) -> (AppView, Effect) {
    match panel_hit(s, col, row) {
        None => (s, Effect::Nothing),
        Some(panel) => {
            let area = match panel {
                Panel::Local => s.local_area.unwrap(),
                Panel::Remote => s.remote_area.unwrap(),
            };
            let active = AppView { active_panel: panel, ..s };
            if row <= area.y || row + 1 >= area.y + area.height {
                (active, Effect::Nothing)
            } else {
                let in_content = row - area.y - 1;
                let (scroll, len) = match panel {
                    Panel::Local => (s.local_scroll, s.local_entries.len()),
                    Panel::Remote => (s.remote_scroll, s.remote_entries.len()),
                };
                let idx = scroll + in_content;
                if idx >= len {
                    (active, Effect::Nothing)
                } else {
                    let moved = match panel {
                        Panel::Local => AppView { local_cursor: idx as usize, ..active },
                        Panel::Remote => AppView { remote_cursor: idx as usize, ..active },
                    }.scrolls_clamped();
                    let double = match s.last_click {
                        Some((p, i, t)) => p == panel && i == idx && (now_ms < t || now_ms - t < DOUBLE_CLICK_MS),
                        None => false,
                    };
                    if double {
                        AppView { last_click: None, ..moved }.dir_entered()
                    } else {
                        (AppView { last_click: Some((panel, idx as usize, now_ms)), ..moved }, Effect::Nothing)
                    }
                }
            }
        },
    }
}

fn within(a: Area, col: u16, row: u16) -> (r: bool)
    ensures
        r == area_holds(a, col, row),
{
    (a.x as u32) <= (col as u32) && (col as u32) < (a.x as u32) + (a.width as u32) && (a.y as u32)
        <= (row as u32) && (row as u32) < (a.y as u32) + (a.height as u32)
}

/// The answer to a key in browse mode. `q` quits; Tab switches panels; arrows,
/// `j`/`k`, page keys, Home and End move the cursor; Enter, Right and `l` open the
/// entry; Left, Backspace and `h` go up; Space toggles the selection; `H` shows or
/// hides dot files; `r` lists the active panel again; `d`, Delete and `c` ask for
/// confirmation unless a transfer runs; Esc cancels a running transfer.
pub open spec fn browse_step(s: AppView, key: Key) -> (AppView, Effect) {
    match key {
        Key::Char('q') | Key::Char('Q') => (s, Effect::Quit),
        Key::Tab => (
            AppView {
                active_panel: match s.active_panel {
                    Panel::Local => Panel::Remote,
                    Panel::Remote => Panel::Local,
                },
                ..s
            },
            Effect::Nothing,
        ),
        Key::Up | Key::Char('k') => (s.cursor_up(), Effect::Nothing),
        Key::Down | Key::Char('j') => (s.cursor_down(), Effect::Nothing),
        Key::PageUp => (s.cursor_page_up(), Effect::Nothing),
        Key::PageDown => (s.cursor_page_down(), Effect::Nothing),
        Key::Home => (s.with_active_cursor(0), Effect::Nothing),
        Key::End => (s.with_active_cursor(last_index(s.active_len())), Effect::Nothing),
        Key::Enter | Key::Right | Key::Char('l') => s.dir_entered(),
        Key::Left | Key::Backspace | Key::Char('h') => s.parent_entered(),
        Key::Char(' ') => (s.selection_toggled().cursor_down(), Effect::Nothing),
        Key::Char('H') => (AppView { show_hidden: !s.show_hidden, ..s }, Effect::ListLocal),
        Key::Char('r') => (
            s,
            match s.active_panel {
                Panel::Local => Effect::ListLocal,
                Panel::Remote => Effect::ListRemote,
            },
        ),
        Key::Char('d') | Key::Delete => if s.transfer_active {
            (s, Effect::Nothing)
        } else {
            (AppView { mode: AppMode::Confirm(ConfirmAction::Delete), ..s }, Effect::Nothing)
        },
        Key::Char('c') => if s.transfer_active {
            (s, Effect::Nothing)
        } else {
            (AppView { mode: AppMode::Confirm(ConfirmAction::Copy), ..s }, Effect::Nothing)
        },
        Key::Esc => (s, if s.transfer_active { Effect::CancelTransfer } else { Effect::Nothing }),
        _ => (s, Effect::Nothing),
    }
}

/// In browse mode the cursor keys move only the active panel's cursor, and ask
/// for nothing: Up and `k` one entry up and Down and `j` one entry down, stopping
/// at the ends; PageUp a screenful (the rows shown) up, stopping at the top, and
/// PageDown a screenful down, stopping at the last entry; Home to the top; End to
/// the last entry.
pub proof fn lemma_browse_cursor_keys(s: AppView)
    requires
        s.local_entries.len() <= usize::MAX,
        s.remote_entries.len() <= usize::MAX,
    ensures
        ({
            let c = s.active_cursor() as int;
            let h = rows_shown_of(s);
            let last: int = if s.active_len() == 0 { 0 } else { s.active_len() - 1 };
            let up: int = if c > 0 { c - 1 } else { 0 };
            let down: int = if c + 1 < s.active_len() { c + 1 } else { c };
            &&& browse_step(s, Key::Up).0.active_cursor() == up
            &&& browse_step(s, Key::Char('k')).0.active_cursor() == up
            &&& browse_step(s, Key::Down).0.active_cursor() == down
            &&& browse_step(s, Key::Char('j')).0.active_cursor() == down
            &&& browse_step(s, Key::PageUp).0.active_cursor() == if c - h > 0 { c - h } else { 0 }
            &&& browse_step(s, Key::PageDown).0.active_cursor() == if c + h < last { c + h } else { last }
            &&& browse_step(s, Key::Home).0.active_cursor() == 0
            &&& browse_step(s, Key::End).0.active_cursor() == last
            &&& forall|key: Key|
                #![trigger browse_step(s, key)]
                key == Key::Up || key == Key::Down || key == Key::Char('k') || key == Key::Char('j') || key
                    == Key::PageUp || key == Key::PageDown || key == Key::Home || key == Key::End ==> {
                    &&& browse_step(s, key).1 == Effect::Nothing
                    &&& browse_step(s, key).0.active_panel == s.active_panel
                    &&& browse_step(s, key).0.local_entries == s.local_entries
                    &&& browse_step(s, key).0.remote_entries == s.remote_entries
                    &&& s.active_panel == Panel::Local ==> browse_step(s, key).0.remote_cursor == s.remote_cursor
                    &&& s.active_panel == Panel::Remote ==> browse_step(s, key).0.local_cursor == s.local_cursor
                }
        }),
{
    crate::app::lemma_cursor_moves(s);
}

/// In browse mode: `q` quits and changes nothing; Tab makes the other panel active
/// and changes nothing else; `H` flips whether dot files are shown and asks for
/// the local listing; `r` asks for the active panel's listing and changes
/// nothing; Esc asks to cancel the transfer exactly when one runs and changes
/// nothing; Space flips whether the entry under the cursor is selected, leaves
/// the rest of the selection, and moves the cursor down as Down does; Left,
/// Backspace and `h` go up as `parent_entered` says, which from the root changes
/// nothing.
pub proof fn lemma_browse_other_keys(s: AppView, i: usize)
    requires
        s.local_entries.len() <= usize::MAX,
        s.remote_entries.len() <= usize::MAX,
    ensures
        browse_step(s, Key::Char('q')) == (s, Effect::Quit),
        browse_step(s, Key::Tab).0.active_panel != s.active_panel,
        browse_step(s, Key::Tab).0 == (AppView { active_panel: browse_step(s, Key::Tab).0.active_panel, ..s }),
        browse_step(s, Key::Tab).1 == Effect::Nothing,
        browse_step(s, Key::Char('H')).0.show_hidden == !s.show_hidden,
        browse_step(s, Key::Char('H')).0 == (AppView { show_hidden: !s.show_hidden, ..s }),
        browse_step(s, Key::Char('H')).1 == Effect::ListLocal,
        browse_step(s, Key::Char('r')).0 == s,
        s.active_panel == Panel::Local ==> browse_step(s, Key::Char('r')).1 == Effect::ListLocal,
        s.active_panel == Panel::Remote ==> browse_step(s, Key::Char('r')).1 == Effect::ListRemote,
        browse_step(s, Key::Esc).0 == s,
        s.transfer_active ==> browse_step(s, Key::Esc).1 == Effect::CancelTransfer,
        !s.transfer_active ==> browse_step(s, Key::Esc).1 == Effect::Nothing,
        browse_step(s, Key::Char(' ')).1 == Effect::Nothing,
        browse_step(s, Key::Char(' ')).0.active_cursor() == if s.active_cursor() + 1 < s.active_len() {
            s.active_cursor() + 1
        } else {
            s.active_cursor() as int
        },
        s.active_panel == Panel::Local && s.local_entries.len() > 0 ==> {
            &&& browse_step(s, Key::Char(' ')).0.local_selected.contains(s.local_cursor) == !s.local_selected.contains(s.local_cursor)
            &&& i != s.local_cursor ==> browse_step(s, Key::Char(' ')).0.local_selected.contains(i) == s.local_selected.contains(i)
            &&& browse_step(s, Key::Char(' ')).0.remote_selected == s.remote_selected
        },
        s.active_panel == Panel::Remote && s.remote_entries.len() > 0 ==> {
            &&& browse_step(s, Key::Char(' ')).0.remote_selected.contains(s.remote_cursor) == !s.remote_selected.contains(s.remote_cursor)
            &&& i != s.remote_cursor ==> browse_step(s, Key::Char(' ')).0.remote_selected.contains(i) == s.remote_selected.contains(i)
            &&& browse_step(s, Key::Char(' ')).0.local_selected == s.local_selected
        },
        browse_step(s, Key::Left) == s.parent_entered(),
        browse_step(s, Key::Backspace) == s.parent_entered(),
        browse_step(s, Key::Char('h')) == s.parent_entered(),
        s.active_cwd() == seq!['/'] ==> browse_step(s, Key::Left) == (s, Effect::Nothing),
{
    if s.active_cwd() == seq!['/'] {
        crate::app::lemma_root_has_no_parent(s);
    }
    crate::app::lemma_cursor_moves(s);
}

/// Answering yes to a prompt returns to browsing. A delete hands out the entries
/// of the active panel that `picked` names, to be deleted on that side. A copy
/// from the local panel uploads the picked local entries into the remote
/// directory, and one from the remote panel downloads the picked remote entries
/// into the local directory, marking a transfer as running; with nothing to copy
/// it only returns to browsing.
pub proof fn lemma_confirmed_acts_on_active_panel(before: AppView, action: ConfirmAction, after: AppView, e: Effect)
    requires
        confirmed(before, action, after, e),
    ensures
        after.mode == AppMode::Browse,
        after.local_entries == before.local_entries && after.remote_entries == before.remote_entries,
        after.local_cwd == before.local_cwd && after.remote_cwd == before.remote_cwd,
        action == ConfirmAction::Delete && before.active_panel == Panel::Local ==> match e {
            Effect::DeleteLocal(v) => picked(v@, before.local_entries, before.local_cursor, before.local_selected)
                && after.transfer_active == before.transfer_active,
            _ => false,
        },
        action == ConfirmAction::Delete && before.active_panel == Panel::Remote ==> match e {
            Effect::DeleteRemote(v) => picked(v@, before.remote_entries, before.remote_cursor, before.remote_selected)
                && after.transfer_active == before.transfer_active,
            _ => false,
        },
        action == ConfirmAction::Copy && before.active_panel == Panel::Local ==> match e {
            Effect::Upload(v, dest) => dest@ == before.remote_cwd && after.transfer_active && v@.len() > 0
                && picked(v@, before.local_entries, before.local_cursor, before.local_selected),
            Effect::Nothing => after.transfer_active == before.transfer_active,
            _ => false,
        },
        action == ConfirmAction::Copy && before.active_panel == Panel::Remote ==> match e {
            Effect::Download(v, dest) => dest@ == before.local_cwd && after.transfer_active && v@.len() > 0
                && picked(v@, before.remote_entries, before.remote_cursor, before.remote_selected),
            Effect::Nothing => after.transfer_active == before.transfer_active,
            _ => false,
        },
{
}

/// Once the panels are placed, a cell in the local panel's area hits the local
/// panel, a cell only in the remote panel's area hits the remote panel, and a
/// cell in neither hits nothing.
pub proof fn lemma_panel_hit_areas(s: AppView, col: u16, row: u16)
    requires
        s.local_area is Some,
        s.remote_area is Some,
    ensures
        area_holds(s.local_area.unwrap(), col, row) ==> panel_hit(s, col, row) == Some(Panel::Local),
        !area_holds(s.local_area.unwrap(), col, row) && area_holds(s.remote_area.unwrap(), col, row) ==> panel_hit(
            s,
            col,
            row,
        ) == Some(Panel::Remote),
        !area_holds(s.local_area.unwrap(), col, row) && !area_holds(s.remote_area.unwrap(), col, row) ==> panel_hit(
            s,
            col,
            row,
        ) is None,
{
}

/// In browse mode Enter, Right and `l` on an entry that is not a directory, or
/// past the list, change nothing and ask for nothing.
pub proof fn lemma_browse_enter_on_file(s: AppView, key: Key)
    requires
        key == Key::Enter || key == Key::Right || key == Key::Char('l'),
        s.active_panel == Panel::Local ==> !((s.local_cursor as int) < s.local_entries.len()
            && s.local_entries[s.local_cursor as int].is_dir),
        s.active_panel == Panel::Remote ==> !((s.remote_cursor as int) < s.remote_entries.len()
            && s.remote_entries[s.remote_cursor as int].is_dir),
    ensures
        browse_step(s, key) == (s, Effect::Nothing),
{
    crate::app::lemma_enter_opens_only_directories(s);
}

/// The wheel moves only the cursor of the panel it is over: a positive delta
/// `step` entries down, stopping at the last entry; a negative delta `step`
/// entries up, stopping at the top; no delta not at all.
pub proof fn lemma_wheel_moves_cursor(s: AppView, panel: Panel, delta: i32, step: usize)
    requires
        s.local_entries.len() <= usize::MAX,
        s.remote_entries.len() <= usize::MAX,
    ensures
        ({
            let t = scrolled(s, panel, delta, step);
            let (c, len, other, t_c, t_other) = match panel {
                Panel::Local => (s.local_cursor as int, s.local_entries.len() as int, s.remote_cursor, t.local_cursor as int, t.remote_cursor),
                Panel::Remote => (s.remote_cursor as int, s.remote_entries.len() as int, s.local_cursor, t.remote_cursor as int, t.local_cursor),
            };
            let last: int = if len == 0 { 0 } else { len - 1 };
            &&& delta > 0 ==> t_c == if c + step < last { c + step } else { last }
            &&& delta < 0 ==> t_c == if c - step > 0 { c - step } else { 0 }
            &&& delta == 0 ==> t_c == c
            &&& t_other == other
            &&& t.active_panel == s.active_panel
            &&& t.local_entries == s.local_entries
            &&& t.remote_entries == s.remote_entries
        }),
{
}

/// A click on content row `k` of a panel (the rows between its borders) that
/// lands on an entry makes that panel active and moves its cursor to the entry
/// drawn there, `scroll + k`, keeping the window where it is when the row is one
/// of the rows shown. On an entry that is not a directory that is all, whether or
/// not the click is a double click; a first click is remembered.
pub proof fn lemma_click_selects_drawn_entry(s: AppView, col: u16, row: u16, now_ms: u64, panel: Panel)
    requires
        s.wf(),
        s.local_entries.len() <= usize::MAX,
        s.remote_entries.len() <= usize::MAX,
        panel_hit(s, col, row) == Some(panel),
    ensures
        ({
            let area = match panel {
                Panel::Local => s.local_area.unwrap(),
                Panel::Remote => s.remote_area.unwrap(),
            };
            let k = row - area.y - 1;
            let (scroll, len, is_dir_at) = match panel {
                Panel::Local => (s.local_scroll as int, s.local_entries.len() as int,
                    if 0 <= s.local_scroll + k < s.local_entries.len() { s.local_entries[s.local_scroll + k].is_dir } else { false }),
                Panel::Remote => (s.remote_scroll as int, s.remote_entries.len() as int,
                    if 0 <= s.remote_scroll + k < s.remote_entries.len() { s.remote_entries[s.remote_scroll + k].is_dir } else { false }),
            };
            let (t, e) = clicked(s, col, row, now_ms);
            let (t_cursor, t_scroll) = match panel {
                Panel::Local => (t.local_cursor as int, t.local_scroll as int),
                Panel::Remote => (t.remote_cursor as int, t.remote_scroll as int),
            };
            area.y < row && row + 1 < area.y + area.height && scroll + k < len ==> {
                &&& t.active_panel == panel
                &&& (!is_dir_at || s.last_click is None) ==> t_cursor == scroll + k && e == Effect::Nothing
                &&& (!is_dir_at || s.last_click is None) && k < rows_shown_of(s) ==> t_scroll == scroll
                &&& s.last_click is None ==> t.last_click == Some((panel, (scroll + k) as usize, now_ms))
            }
        }),
{
    let area = match panel {
        Panel::Local => s.local_area.unwrap(),
        Panel::Remote => s.remote_area.unwrap(),
    };
    let k = row - area.y - 1;
    let active = AppView { active_panel: panel, ..s };
    match panel {
        Panel::Local => {
            let idx = s.local_scroll + k;
            if area.y < row && row + 1 < area.y + area.height && idx < s.local_entries.len() {
                let moved = AppView { local_cursor: idx as usize, ..active };
                crate::app::lemma_enter_opens_only_directories(AppView { last_click: None, ..moved.scrolls_clamped() });
            }
        },
        Panel::Remote => {
            let idx = s.remote_scroll + k;
            if area.y < row && row + 1 < area.y + area.height && idx < s.remote_entries.len() {
                let moved = AppView { remote_cursor: idx as usize, ..active };
                crate::app::lemma_enter_opens_only_directories(AppView { last_click: None, ..moved.scrolls_clamped() });
            }
        },
    }
}

/// Tab twice brings back the panel that was active, and changes nothing else.
pub proof fn lemma_tab_twice(s: AppView)
    ensures
        browse_step(browse_step(s, Key::Tab).0, Key::Tab).0 == s,
{
}

/// `H` twice brings back whether dot files are shown, and asks for the local
/// listing each time.
pub proof fn lemma_hidden_twice(s: AppView)
    ensures
        browse_step(browse_step(s, Key::Char('H')).0, Key::Char('H')).0 == s,
        browse_step(s, Key::Char('H')).1 == Effect::ListLocal,
{
}

/// While a transfer runs, deleting and copying cannot be asked for; otherwise
/// they open a prompt and change nothing else.
pub proof fn lemma_no_prompt_during_transfer(s: AppView, key: Key)
    requires
        key == Key::Char('d') || key == Key::Delete || key == Key::Char('c'),
    ensures
        s.transfer_active ==> browse_step(s, key) == (s, Effect::Nothing),
        !s.transfer_active ==> browse_step(s, key).0.mode is Confirm && browse_step(s, key).1 == Effect::Nothing,
{
}

/// Two clicks on the same visible entry of the local panel, the second within
/// the double-click time, open it: the first moves the cursor there and is
/// remembered, the second opens the entry as `dir_entered` does.
pub proof fn lemma_double_click_opens(s: AppView, col: u16, row: u16, t: u64, now_ms: u64)
    requires
        s.wf(),
        panel_hit(s, col, row) == Some(Panel::Local),
        s.local_area.unwrap().y < row,
        row + 1 < s.local_area.unwrap().y + s.local_area.unwrap().height,
        s.local_scroll + (row - s.local_area.unwrap().y - 1) < s.local_entries.len(),
        (row - s.local_area.unwrap().y - 1) < rows_shown_of(s),
        t <= now_ms,
        now_ms - t < DOUBLE_CLICK_MS,
        s.local_entries.len() <= usize::MAX,
        s.last_click is None,
    ensures
        ({
            let first = clicked(s, col, row, t).0;
            &&& first.local_cursor == s.local_scroll + (row - s.local_area.unwrap().y - 1)
            &&& clicked(first, col, row, now_ms) == AppView { last_click: None, ..first }.dir_entered()
        }),
{
    let first = clicked(s, col, row, t).0;
    let idx = s.local_scroll + (row - s.local_area.unwrap().y - 1);
    let active = AppView { active_panel: Panel::Local, ..s };
    let moved = AppView { local_cursor: idx as usize, ..active };
    assert(clamped_scroll_keeps(moved));
    assert(first == AppView { last_click: Some((Panel::Local, idx as usize, t)), ..moved.scrolls_clamped() });
    assert(first.local_scroll == s.local_scroll);
    assert(panel_hit(first, col, row) == Some(Panel::Local));
}

spec fn clamped_scroll_keeps(s: AppView) -> bool {
    crate::app::clamped_scroll(s.local_cursor, s.local_scroll, crate::app::rows_shown(s.visible_height)) == s.local_scroll
}

/// The number of list rows a state shows.
pub open spec fn rows_shown_of(s: AppView) -> int {
    crate::app::rows_shown(s.visible_height)
}

/// The key answers a confirmation with yes.
pub open spec fn is_yes(key: Key) -> bool {
    key == Key::Char('y') || key == Key::Char('Y')
}

/// The effect of a confirmed action on the active panel, given the state after
/// leaving the prompt: deletion acts on the picked entries; copying does nothing
/// when no entry is picked and otherwise starts a transfer into the other panel's
/// directory.
pub open spec fn confirmed(before: AppView, action: ConfirmAction, after: AppView, e: Effect) -> bool {
    let browse = AppView { mode: AppMode::Browse, ..before };
    match (action, before.active_panel) {
        (ConfirmAction::Delete, Panel::Local) => after == browse && match e {
            Effect::DeleteLocal(v) => picked(v@, before.local_entries, before.local_cursor, before.local_selected),
            _ => false,
        },
        (ConfirmAction::Delete, Panel::Remote) => after == browse && match e {
            Effect::DeleteRemote(v) => picked(v@, before.remote_entries, before.remote_cursor, before.remote_selected),
            _ => false,
        },
        (ConfirmAction::Copy, Panel::Local) => match e {
            Effect::Nothing => after == browse && picked(Seq::<LocalEntry>::empty(), before.local_entries, before.local_cursor, before.local_selected),
            Effect::Upload(v, dest) => after == (AppView { transfer_active: true, ..browse }) && v@.len() > 0
                && picked(v@, before.local_entries, before.local_cursor, before.local_selected)
                && dest@ == before.remote_cwd,
            _ => false,
        },
        (ConfirmAction::Copy, Panel::Remote) => match e {
            Effect::Nothing => after == browse && picked(Seq::<RemoteEntry>::empty(), before.remote_entries, before.remote_cursor, before.remote_selected),
            Effect::Download(v, dest) => after == (AppView { transfer_active: true, ..browse }) && v@.len() > 0
                && picked(v@, before.remote_entries, before.remote_cursor, before.remote_selected)
                && dest@ == before.local_cwd,
            _ => false,
        },
    }
}

impl App {
    /// Copies of the local entries an operation acts on (see `picked`).
    pub fn picked_local_entries(&self) -> (r: Vec<LocalEntry>)
        ensures
            picked(r@, self@.local_entries, self.local_cursor, self@.local_selected),
    {
        let refs = self.selected_local_entries();
        let mut r: Vec<LocalEntry> = Vec::new();
        let mut k: usize = 0;
        while k < refs.len()
            invariant
                k <= refs@.len(),
                r@ == refs@.unref().take(k as int),
            decreases refs@.len() - k,
        {
            r.push(refs[k].duplicate());
            assert(refs@.unref().take(k as int + 1) =~= refs@.unref().take(k as int).push(*refs@[k as int]));
            k = k + 1;
        }
        assert(refs@.unref().take(refs@.len() as int) =~= refs@.unref());
        r
    }

    /// Copies of the remote entries an operation acts on (see `picked`).
    pub fn picked_remote_entries(&self) -> (r: Vec<RemoteEntry>)
        ensures
            picked(r@, self@.remote_entries, self.remote_cursor, self@.remote_selected),
    {
        let refs = self.selected_remote_entries();
        let mut r: Vec<RemoteEntry> = Vec::new();
        let mut k: usize = 0;
        while k < refs.len()
            invariant
                k <= refs@.len(),
                r@ == refs@.unref().take(k as int),
            decreases refs@.len() - k,
        {
            r.push(refs[k].duplicate());
            assert(refs@.unref().take(k as int + 1) =~= refs@.unref().take(k as int).push(*refs@[k as int]));
            k = k + 1;
        }
        assert(refs@.unref().take(refs@.len() as int) =~= refs@.unref());
        r
    }

    /// Handles a key in browse mode (see `browse_step`).
    pub fn handle_browse(&mut self, key: Key) -> (e: Effect)
        requires
            old(self)@.wf(),
        ensures
            (final(self)@, e) == browse_step(old(self)@, key),
            final(self)@.wf(),
    {
        match key {
            Key::Char('q') | Key::Char('Q') => Effect::Quit,
            Key::Tab => {
                self.switch_panel();
                Effect::Nothing
            },
            Key::Up | Key::Char('k') => {
                self.move_cursor_up();
                Effect::Nothing
            },
            Key::Down | Key::Char('j') => {
                self.move_cursor_down();
                Effect::Nothing
            },
            Key::PageUp => {
                self.move_page_up();
                Effect::Nothing
            },
            Key::PageDown => {
                self.move_page_down();
                Effect::Nothing
            },
            Key::Home => {
                self.move_to_top();
                Effect::Nothing
            },
            Key::End => {
                self.move_to_bottom();
                Effect::Nothing
            },
            Key::Enter | Key::Right | Key::Char('l') => self.enter_dir(),
            Key::Left | Key::Backspace | Key::Char('h') => self.go_parent(),
            Key::Char(' ') => {
                self.toggle_select();
                Effect::Nothing
            },
            Key::Char('H') => self.toggle_hidden(),
            Key::Char('r') => match self.active_panel {
                Panel::Local => Effect::ListLocal,
                Panel::Remote => Effect::ListRemote,
            },
            Key::Char('d') | Key::Delete => {
                if !self.transfer_active {
                    self.mode = AppMode::Confirm(ConfirmAction::Delete);
                }
                Effect::Nothing
            },
            Key::Char('c') => {
                if !self.transfer_active {
                    self.mode = AppMode::Confirm(ConfirmAction::Copy);
                }
                Effect::Nothing
            },
            Key::Esc => if self.transfer_active {
                Effect::CancelTransfer
            } else {
                Effect::Nothing
            },
            _ => Effect::Nothing,
        }
    }

    /// Answers a confirmation prompt: the prompt closes, and a yes carries out the
    /// action (see `confirmed`).
    pub fn handle_confirm(&mut self, action: ConfirmAction, key: Key) -> (e: Effect)
        requires
            old(self)@.wf(),
        ensures
            final(self)@.wf(),
            is_yes(key) ==> confirmed(old(self)@, action, final(self)@, e),
            !is_yes(key) ==> final(self)@ == (AppView { mode: AppMode::Browse, ..old(self)@ }) && e is Nothing,
    {
        self.mode = AppMode::Browse;
        if !(key == Key::Char('y') || key == Key::Char('Y')) {
            return Effect::Nothing;
        }
        match (action, self.active_panel) {
            (ConfirmAction::Delete, Panel::Local) => Effect::DeleteLocal(self.picked_local_entries()),
            (ConfirmAction::Delete, Panel::Remote) => Effect::DeleteRemote(self.picked_remote_entries()),
            (ConfirmAction::Copy, Panel::Local) => {
                let entries = self.picked_local_entries();
                if entries.len() == 0 {
                    assert(entries@ =~= Seq::<LocalEntry>::empty());
                    return Effect::Nothing;
                }
                self.transfer_active = true;
                Effect::Upload(entries, self.remote_cwd.clone())
            },
            (ConfirmAction::Copy, Panel::Remote) => {
                let entries = self.picked_remote_entries();
                if entries.len() == 0 {
                    assert(entries@ =~= Seq::<RemoteEntry>::empty());
                    return Effect::Nothing;
                }
                self.transfer_active = true;
                Effect::Download(entries, self.local_cwd.clone())
            },
        }
    }

    /// Handles a key in whatever mode the state is in: browse keys as
    /// `browse_step` says, a prompt as `handle_confirm` does, and in error or
    /// status mode any key dismisses the message.
    pub fn handle_key(&mut self, key: Key) -> (e: Effect)
        requires
            old(self)@.wf(),
        ensures
            final(self)@.wf(),
            match old(self)@.mode {
                AppMode::Browse => (final(self)@, e) == browse_step(old(self)@, key),
                AppMode::Confirm(action) => if is_yes(key) {
                    confirmed(old(self)@, action, final(self)@, e)
                } else {
                    final(self)@ == (AppView { mode: AppMode::Browse, ..old(self)@ }) && e is Nothing
                },
                AppMode::Error => final(self)@ == (AppView { mode: AppMode::Browse, error_msg: Seq::empty(), ..old(self)@ })
                    && e is Nothing,
                AppMode::Status => final(self)@ == (AppView { mode: AppMode::Browse, status_msg: Seq::empty(), ..old(self)@ })
                    && e is Nothing,
            },
    {
        match self.mode {
            AppMode::Browse => self.handle_browse(key),
            AppMode::Confirm(action) => self.handle_confirm(action, key),
            AppMode::Error => {
                self.mode = AppMode::Browse;
                self.error_msg = String::new();
                Effect::Nothing
            },
            AppMode::Status => {
                self.mode = AppMode::Browse;
                self.status_msg = String::new();
                Effect::Nothing
            },
        }
    }

    /// Handles a mouse event: the wheel over a panel asks for a scroll of that
    /// panel, a left click is handled as `clicked` says.
    pub fn handle_mouse(&mut self, kind: MouseKind, col: u16, row: u16, now_ms: u64) -> (e: Effect)
        requires
            old(self)@.wf(),
        ensures
            final(self)@.wf(),
            match kind {
                MouseKind::ScrollUp => final(self)@ == old(self)@ && e == match panel_hit(old(self)@, col, row) {
                    Some(p) => Effect::Scroll(p, -1i32),
                    None => Effect::Nothing,
                },
                MouseKind::ScrollDown => final(self)@ == old(self)@ && e == match panel_hit(old(self)@, col, row) {
                    Some(p) => Effect::Scroll(p, 1i32),
                    None => Effect::Nothing,
                },
                MouseKind::LeftDown => (final(self)@, e) == clicked(old(self)@, col, row, now_ms),
                MouseKind::Other => final(self)@ == old(self)@ && e is Nothing,
            },
    {
        match kind {
            MouseKind::ScrollUp => match self.panel_at(col, row) {
                Some(p) => Effect::Scroll(p, -1i32),
                None => Effect::Nothing,
            },
            MouseKind::ScrollDown => match self.panel_at(col, row) {
                Some(p) => Effect::Scroll(p, 1i32),
                None => Effect::Nothing,
            },
            MouseKind::LeftDown => self.handle_click(col, row, now_ms),
            MouseKind::Other => Effect::Nothing,
        }
    }

    /// Shows how a local deletion ended, with a new listing of the local panel: the
    /// first failure's message, or a success message.
    pub fn finish_delete_local(&mut self, failure: Option<String>, listing: Vec<LocalEntry>)
        requires
            old(self)@.wf(),
        ensures
            final(self)@.wf(),
            match failure {
                Some(msg) => final(self)@ == (AppView {
                    error_msg: "Delete error: "@ + msg@,
                    mode: AppMode::Error,
                    ..old(self)@
                }).local_refreshed(listing@),
                None => final(self)@ == (AppView {
                    status_msg: "Deleted successfully."@,
                    mode: AppMode::Status,
                    ..old(self)@.local_refreshed(listing@)
                }),
            },
    {
        match failure {
            Some(msg) => {
                let mut text = String::from_str("Delete error: ");
                text.append(msg.as_str());
                self.error_msg = text;
                self.mode = AppMode::Error;
                self.refresh_local(listing);
            },
            None => {
                self.refresh_local(listing);
                self.status_msg = String::from_str("Deleted successfully.");
                self.mode = AppMode::Status;
            },
        }
    }

    /// Shows how a remote deletion ended, with the outcome of listing the remote
    /// panel again: the first failure's message, or a success message.
    pub fn finish_delete_remote(&mut self, failure: Option<String>, listing: Result<Vec<RemoteEntry>, String>)
        requires
            old(self)@.wf(),
        ensures
            final(self)@.wf(),
            match failure {
                Some(msg) => final(self)@ == (AppView {
                    error_msg: "Delete error: "@ + msg@,
                    mode: AppMode::Error,
                    ..old(self)@
                }).remote_refreshed(
                    match listing {
                        Ok(v) => Ok(v@),
                        Err(e) => Err(e@),
                    },
                ),
                None => final(self)@ == (AppView {
                    status_msg: "Deleted successfully."@,
                    mode: AppMode::Status,
                    ..old(self)@.remote_refreshed(
                        match listing {
                            Ok(v) => Ok(v@),
                            Err(e) => Err(e@),
                        },
                    )
                }),
            },
    {
        match failure {
            Some(msg) => {
                let mut text = String::from_str("Delete error: ");
                text.append(msg.as_str());
                self.error_msg = text;
                self.mode = AppMode::Error;
                self.refresh_remote(listing);
            },
            None => {
                self.refresh_remote(listing);
                self.status_msg = String::from_str("Deleted successfully.");
                self.mode = AppMode::Status;
            },
        }
    }

    /// Takes in a snapshot of the running transfer's progress. Until the transfer
    /// finishes the snapshot is shown when it reports new bytes, an end or an
    /// error. When it has finished the transfer is over: a cancelled one says so,
    /// a failed one shows its error, a complete one says so and asks for both
    /// panels to be listed again; the progress display is reset.
    pub fn on_transfer_progress(&mut self, snapshot: ProgressState) -> (e: Effect)
        requires
            old(self)@.wf(),
            old(self).transfer_active,
        ensures
            final(self)@.wf(),
            !snapshot.finished ==> e is Nothing && final(self)@ == (AppView {
                progress: if snapshot.bytes_done != old(self).progress.bytes_done || snapshot.error is Some {
                    snapshot
                } else {
                    old(self).progress
                },
                ..old(self)@
            }),
            snapshot.finished ==> {
                &&& fresh_progress(final(self).progress, 0)
                &&& if snapshot.cancelled {
                    &&& e is Nothing
                    &&& final(self)@ == (AppView {
                        transfer_active: false,
                        status_msg: "Transfer cancelled."@,
                        mode: AppMode::Status,
                        progress: final(self).progress,
                        ..old(self)@
                    })
                } else if snapshot.error is Some {
                    &&& e is Nothing
                    &&& final(self)@ == (AppView {
                        transfer_active: false,
                        error_msg: "Transfer error: "@ + snapshot.error->0@,
                        mode: AppMode::Error,
                        progress: final(self).progress,
                        ..old(self)@
                    })
                } else {
                    &&& e is ListBoth
                    &&& final(self)@ == (AppView {
                        transfer_active: false,
                        status_msg: "Transfer complete!"@,
                        mode: AppMode::Status,
                        progress: final(self).progress,
                        ..old(self)@
                    })
                }
            },
    {
        if !snapshot.finished {
            if snapshot.bytes_done != self.progress.bytes_done || snapshot.error.is_some() {
                self.progress = snapshot;
            }
            return Effect::Nothing;
        }
        self.transfer_active = false;
        let effect = if snapshot.cancelled {
            self.status_msg = String::from_str("Transfer cancelled.");
            self.mode = AppMode::Status;
            Effect::Nothing
        } else {
            match &snapshot.error {
                Some(msg) => {
                    let mut text = String::from_str("Transfer error: ");
                    text.append(msg.as_str());
                    self.error_msg = text;
                    self.mode = AppMode::Error;
                    Effect::Nothing
                },
                None => {
                    self.status_msg = String::from_str("Transfer complete!");
                    self.mode = AppMode::Status;
                    Effect::ListBoth
                },
            }
        };
        self.progress = ProgressState::for_files(0);
        effect
    }

    /// The panel under a cell (see `panel_hit`).
    pub fn panel_at(&self, col: u16, row: u16) -> (r: Option<Panel>)
        ensures
            r == panel_hit(self@, col, row),
    {
        match self.local_area {
            None => None,
            Some(la) => if within(la, col, row) {
                Some(Panel::Local)
            } else {
                match self.remote_area {
                    None => None,
                    Some(ra) => if within(ra, col, row) {
                        Some(Panel::Remote)
                    } else {
                        None
                    },
                }
            },
        }
    }

    /// Moves a panel's cursor by a wheel step (see `scrolled`).
    pub fn scroll_panel(&mut self, panel: Panel, delta: i32, step: usize)
        requires
            old(self)@.wf(),
        ensures
            final(self)@ == scrolled(old(self)@, panel, delta, step),
            final(self)@.wf(),
    {
        match panel {
            Panel::Local => {
                let c = self.local_cursor;
                let len = self.local_entries.len();
                let last = if len > 0 { len - 1 } else { 0 };
                if delta > 0 {
                    self.local_cursor = if c <= last && step <= last - c { c + step } else { last };
                } else if delta < 0 {
                    self.local_cursor = if c >= step { c - step } else { 0 };
                }
            },
            Panel::Remote => {
                let c = self.remote_cursor;
                let len = self.remote_entries.len();
                let last = if len > 0 { len - 1 } else { 0 };
                if delta > 0 {
                    self.remote_cursor = if c <= last && step <= last - c { c + step } else { last };
                } else if delta < 0 {
                    self.remote_cursor = if c >= step { c - step } else { 0 };
                }
            },
        }
        self.clamp_scroll();
    }

    /// Handles a left click (see `clicked`).
    pub fn handle_click(&mut self, col: u16, row: u16, now_ms: u64) -> (e: Effect)
        requires
            old(self)@.wf(),
        ensures
            (final(self)@, e) == clicked(old(self)@, col, row, now_ms),
            final(self)@.wf(),
    {
        let panel = match self.panel_at(col, row) {
            Some(p) => p,
            None => {
                return Effect::Nothing;
            },
        };
        let area = match panel {
            Panel::Local => self.local_area.unwrap(),
            Panel::Remote => self.remote_area.unwrap(),
        };
        if row <= area.y || (row as u32) + 1 >= (area.y as u32) + (area.height as u32) {
            self.active_panel = panel;
            return Effect::Nothing;
        }
        let in_content = (row - area.y - 1) as usize;
        let (scroll, len) = match panel {
            Panel::Local => (self.local_scroll, self.local_entries.len()),
            Panel::Remote => (self.remote_scroll, self.remote_entries.len()),
        };
        self.active_panel = panel;
        if scroll > len || in_content >= len - scroll {
            return Effect::Nothing;
        }
        let idx = scroll + in_content;
        let double = match self.last_click {
            Some((p, i, t)) => p == panel && i == idx && (now_ms < t || now_ms - t < DOUBLE_CLICK_MS),
            None => false,
        };
        match panel {
            Panel::Local => self.local_cursor = idx,
            Panel::Remote => self.remote_cursor = idx,
        }
        self.clamp_scroll();
        if double {
            self.last_click = None;
            self.enter_dir()
        } else {
            self.last_click = Some((panel, idx, now_ms));
            Effect::Nothing
        }
    }
}

} // verus!

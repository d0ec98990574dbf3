//! The state of the two panels and the operations that change it.

use std::collections::HashSet;
use vstd::prelude::*;
use vstd::string::*;
use crate::events::Effect;
use crate::file_ops::{ProgressState, fresh_progress};
use crate::listing::{
    ListedEntry, increasing_by, lemma_filter_increasing, lemma_filter_map, lemma_increasing_unique,
    lemma_ranks_asymmetric, index_taken, lemma_rearrangement_onto, lemma_stable_ranks, ranks_before, stable_sorted_by,
};
use crate::ssh::RemoteEntry;
use crate::ui::Area;

verus! {

broadcast use vstd::std_specs::hash::group_hash_axioms;

/// One of the two side-by-side panels.
#[derive(Clone, Copy, PartialEq, Eq, Debug, Structural)]
pub enum Panel {
    Local,
    Remote,
}

/// What a confirmation prompt will do when answered with yes.
#[derive(Clone, Copy, PartialEq, Eq, Debug, Structural)]
pub enum ConfirmAction {
    Delete,
    Copy,
}

/// What the keyboard currently drives.
#[derive(Clone, Copy, PartialEq, Eq, Debug, Structural)]
pub enum AppMode {
    Browse,
    Confirm(ConfirmAction),
    Error,
    Status,
}

/// One entry of a local directory listing.
#[derive(Clone, Debug)]
pub struct LocalEntry {
    pub name: String,
    /// Full local path of the entry.
    pub path: String,
    pub is_dir: bool,
    pub size: u64,
}

/// The plain contents of a local entry.
pub struct LocalEntryView {
    pub name: Seq<char>,
    pub path: Seq<char>,
    pub is_dir: bool,
    pub size: u64,
}

impl View for LocalEntry {
    type V = LocalEntryView;

    open spec fn view(&self) -> LocalEntryView {
        LocalEntryView { name: self.name@, path: self.path@, is_dir: self.is_dir, size: self.size }
    }
}

impl ListedEntry for LocalEntry {
    open spec fn listed_is_dir(&self) -> bool {
        self.is_dir
    }

    open spec fn listed_name(&self) -> Seq<char> {
        self.name@
    }

    fn is_dir_flag(&self) -> (b: bool) {
        self.is_dir
    }

    fn name_str(&self) -> (s: &str) {
        self.name.as_str()
    }

    fn duplicate(&self) -> (r: Self) {
        LocalEntry { name: self.name.clone(), path: self.path.clone(), is_dir: self.is_dir, size: self.size }
    }
}

/// What a local directory entry's metadata says.
#[derive(Clone, Copy, Debug)]
pub struct LocalMeta {
    pub is_dir: bool,
    pub is_file: bool,
    pub len: u64,
}

/// One item as a local directory read returns it; `meta` is absent when its
/// metadata could not be read.
#[derive(Clone, Debug)]
pub struct LocalDirItem {
    pub name: String,
    pub path: String,
    pub meta: Option<LocalMeta>,
}

/// `name` starts with a dot.
pub open spec fn is_hidden_name(name: Seq<char>) -> bool {
    name.len() > 0 && name[0] == '.'
}

/// The entries of a local listing that are shown, in the order read: hidden names
/// are left out unless `show_hidden`, and so are items without metadata; only
/// regular files report a size.
pub open spec fn shown_local(items: Seq<LocalDirItem>, show_hidden: bool) -> Seq<LocalEntryView>
    decreases items.len(),
{
    if items.len() == 0 {
        Seq::empty()
    } else {
        let rest = shown_local(items.drop_last(), show_hidden);
        let it = items.last();
        if !show_hidden && is_hidden_name(it.name@) {
            rest
        } else {
            match it.meta {
                Some(m) => rest.push(
                    LocalEntryView {
                        name: it.name@,
                        path: it.path@,
                        is_dir: m.is_dir,
                        size: if m.is_file { m.len } else { 0 },
                    },
                ),
                None => rest,
            }
        }
    }
}

/// The entries of a listing whose names do not start with a dot, in order.
pub open spec fn without_hidden(s: Seq<LocalEntryView>) -> Seq<LocalEntryView> {
    s.filter(|e: LocalEntryView| !is_hidden_name(e.name))
}

/// `r` is what `list_local` answers for `items`: the entries that are shown,
/// sorted stably for a listing.
pub open spec fn listing_of(items: Seq<LocalDirItem>, show_hidden: bool, r: Seq<LocalEntry>) -> bool {
    exists|kept: Seq<LocalEntry>, perm: Seq<usize>|
        #![trigger stable_sorted_by(r, kept, perm)]
        kept.map_values(|e: LocalEntry| e@) == shown_local(items, show_hidden) && stable_sorted_by(r, kept, perm)
}

/// The entries shown without dot files are those shown with them, dot files taken
/// out, in the same order.
pub proof fn lemma_hidden_filtered(items: Seq<LocalDirItem>)
    ensures
        shown_local(items, false) == without_hidden(shown_local(items, true)),
    decreases items.len(),
{
    let visible = |e: LocalEntryView| !is_hidden_name(e.name);
    if items.len() > 0 {
        lemma_hidden_filtered(items.drop_last());
        let it = items.last();
        let rest = shown_local(items.drop_last(), true);
        match it.meta {
            Some(m) => {
                let e = LocalEntryView { name: it.name@, path: it.path@, is_dir: m.is_dir, size: if m.is_file { m.len } else { 0 } };
                rest.lemma_filter_push(e, visible);
            },
            None => {},
        }
    } else {
        assert(shown_local(items, true).filter(visible) =~= Seq::empty());
    }
}

/// No entry shown without dot files has a name starting with a dot.
pub proof fn lemma_no_hidden_shown(items: Seq<LocalDirItem>)
    ensures
        forall|i: int| 0 <= i < shown_local(items, false).len() ==> !is_hidden_name(#[trigger] shown_local(items, false)[i].name),
{
    let visible = |e: LocalEntryView| !is_hidden_name(e.name);
    lemma_hidden_filtered(items);
    assert(without_hidden(shown_local(items, true)) == shown_local(items, true).filter(visible));
    assert forall|i: int| 0 <= i < shown_local(items, false).len() implies !is_hidden_name(#[trigger] shown_local(items, false)[i].name) by {
        shown_local(items, true).lemma_filter_pred(visible, i);
    }
}

/// Hiding dot files takes them out of the listing and changes nothing else: the
/// listing without them is the listing with them, dot files removed, in the same
/// order.
pub proof fn lemma_hidden_listing(items: Seq<LocalDirItem>, all: Seq<LocalEntry>, visible: Seq<LocalEntry>)
    requires
        listing_of(items, true, all),
        listing_of(items, false, visible),
    ensures
        visible.map_values(|e: LocalEntry| e@) == without_hidden(all.map_values(|e: LocalEntry| e@)),
{
    let view = |e: LocalEntry| e@;
    let shown = |e: LocalEntryView| !is_hidden_name(e.name);
    let (kt, pt) = choose|kept: Seq<LocalEntry>, perm: Seq<usize>|
        #![trigger stable_sorted_by(all, kept, perm)]
        kept.map_values(view) == shown_local(items, true) && stable_sorted_by(all, kept, perm);
    let (kf, pf) = choose|kept: Seq<LocalEntry>, perm: Seq<usize>|
        #![trigger stable_sorted_by(visible, kept, perm)]
        kept.map_values(view) == shown_local(items, false) && stable_sorted_by(visible, kept, perm);
    let n = kt.len();
    let ktv = kt.map_values(view);
    let kfv = kf.map_values(view);
    let elt = |i: int| ktv[i];
    let keep = |i: int| shown(ktv[i]);
    let before = |a: int, b: int| ranks_before(kt, a, b);
    assert forall|x: int, y: int| !(#[trigger] before(x, y) && before(y, x)) by {
        lemma_ranks_asymmetric(kt, x, y);
    }

    // The full listing, as indices into `kt`, and with dot files taken out.
    let to_int = |u: usize| u as int;
    let pti = pt.map_values(to_int);
    lemma_stable_ranks(all, kt, pt);
    assert(increasing_by(pti, before)) by {
        assert forall|k: int, l: int| 0 <= k < l < pti.len() implies before(#[trigger] pti[k], #[trigger] pti[l]) by {
            assert(pti[k] == pt[k] as int && pti[l] == pt[l] as int);
        }
    }
    let q = pti.filter(keep);
    lemma_filter_increasing(pti, keep, before);
    let allv = all.map_values(view);
    assert(allv =~= pti.map_values(elt)) by {
        assert forall|k: int| 0 <= k < allv.len() implies allv[k] == pti.map_values(elt)[k] by {
            assert(all[k] == kt[pt[k] as int]);
        }
    }
    lemma_filter_map(pti, elt, shown, keep);

    // The entries kept without dot files, as indices into `kt`.
    let range = Seq::new(n, |i: int| i);
    let ids = range.filter(keep);
    assert(ktv =~= range.map_values(elt));
    lemma_filter_map(range, elt, shown, keep);
    lemma_hidden_filtered(items);
    assert(kfv == ids.map_values(elt));
    let lt = |a: int, b: int| a < b;
    assert(increasing_by(range, lt));
    lemma_filter_increasing(range, keep, lt);
    assert(ids.len() == kf.len());
    assert forall|c: int| 0 <= c < ids.len() implies 0 <= #[trigger] ids[c] < n && keep(ids[c]) by {
        assert(ids.contains(ids[c]));
        range.lemma_filter_contains_rev(keep, ids[c]);
        range.lemma_filter_pred(keep, c);
    }

    // The listing without dot files, as indices into `kt`.
    let m = kf.len();
    let to_id = |u: usize| ids[u as int];
    let pfi = pf.map_values(to_id);
    lemma_stable_ranks(visible, kf, pf);
    assert(increasing_by(pfi, before)) by {
        assert forall|k: int, l: int| 0 <= k < l < pfi.len() implies before(#[trigger] pfi[k], #[trigger] pfi[l]) by {
            let a = pf[k] as int;
            let b = pf[l] as int;
            assert(ranks_before(kf, a, b));
            assert(kf[a]@ == kfv[a] && kfv[a] == ktv[ids[a]] && ktv[ids[a]] == kt[ids[a]]@);
            assert(kf[b]@ == kfv[b] && kfv[b] == ktv[ids[b]] && ktv[ids[b]] == kt[ids[b]]@);
            if a < b {
                assert(ids[a] < ids[b]);
            }
        }
    }

    // Both hold exactly the shown indices.
    lemma_rearrangement_onto(pt, n);
    lemma_rearrangement_onto(pf, m);
    assert forall|x: int| q.contains(x) <==> pfi.contains(x) by {
        if q.contains(x) {
            pti.lemma_filter_contains_rev(keep, x);
            let k = choose|k: int| 0 <= k < q.len() && q[k] == x;
            pti.lemma_filter_pred(keep, k);
            let j = choose|j: int| 0 <= j < pti.len() && pti[j] == x;
            assert(0 <= x < n);
            assert(range[x] == x);
            range.lemma_filter_contains(keep, x);
            let c = choose|c: int| 0 <= c < ids.len() && ids[c] == x;
            assert(index_taken(pf, c));
            let d = choose|d: int| 0 <= d < pf.len() && pf[d] as int == c;
            assert(pfi[d] == x);
        }
        if pfi.contains(x) {
            let d = choose|d: int| 0 <= d < pfi.len() && pfi[d] == x;
            let c = pf[d] as int;
            assert(ids[c] == x);
            assert(ids.contains(x));
            range.lemma_filter_contains_rev(keep, x);
            range.lemma_filter_pred(keep, c);
            let j = choose|j: int| 0 <= j < range.len() && range[j] == x;
            assert(0 <= x < n);
            assert(index_taken(pt, x));
            let k = choose|k: int| 0 <= k < pt.len() && pt[k] as int == x;
            assert(pti[k] == x);
            pti.lemma_filter_contains(keep, k);
        }
    }
    lemma_increasing_unique(q, pfi, before);

    let visv = visible.map_values(view);
    assert(visv =~= pfi.map_values(elt)) by {
        assert forall|k: int| 0 <= k < visv.len() implies visv[k] == pfi.map_values(elt)[k] by {
            assert(visible[k] == kf[pf[k] as int]);
            assert(kfv[pf[k] as int] == ktv[ids[pf[k] as int]]);
        }
    }
    assert(without_hidden(allv) == allv.filter(shown));
}

fn hidden_name(name: &str) -> (r: bool)
    ensures
        r == is_hidden_name(name@),
{
    name.unicode_len() > 0 && name.get_char(0) == '.'
}

/// The entries of a local directory in listing order (see `sorted_for_listing`),
/// from the items the directory read returned.
pub fn list_local(items: Vec<LocalDirItem>, show_hidden: bool) -> (r: Vec<LocalEntry>)
    ensures
        listing_of(items@, show_hidden, r@),
        !show_hidden ==> forall|i: int| 0 <= i < r@.len() ==> !is_hidden_name(#[trigger] r@[i].name@),
{
    let mut kept: Vec<LocalEntry> = Vec::new();
    let mut i: usize = 0;
    while i < items.len()
        invariant
            i <= items.len(),
            kept@.map_values(|e: LocalEntry| e@) == shown_local(items@.take(i as int), show_hidden),
        decreases items.len() - i,
    {
        let it = &items[i];
        assert(items@.take(i as int + 1).drop_last() =~= items@.take(i as int));
        if show_hidden || !hidden_name(it.name.as_str()) {
            match it.meta {
                Some(m) => {
                    let size = if m.is_file { m.len } else { 0 };
                    let e = LocalEntry { name: it.name.clone(), path: it.path.clone(), is_dir: m.is_dir, size };
                    let ghost before = kept@;
                    kept.push(e);
                    assert(kept@.map_values(|e: LocalEntry| e@) =~= before.map_values(|e: LocalEntry| e@).push(e@));
                },
                None => {},
            }
        }
        i = i + 1;
    }
    assert(items@.take(items.len() as int) =~= items@);
    let r = crate::listing::sorted_for_listing(&kept);
    proof {
        let perm = choose|perm: Seq<usize>| #[trigger] stable_sorted_by(r@, kept@, perm);
        assert(stable_sorted_by(r@, kept@, perm));
        if !show_hidden {
            lemma_no_hidden_shown(items@);
            let perm = choose|perm: Seq<usize>| #[trigger] stable_sorted_by(r@, kept@, perm);
            assert forall|i: int| 0 <= i < r@.len() implies !is_hidden_name(#[trigger] r@[i].name@) by {
                let j = perm[i] as int;
                assert(0 <= j < kept@.len());
                assert(r@[i] == kept@[j]);
                assert(kept@.map_values(|e: LocalEntry| e@)[j] == kept@[j]@);
                assert(shown_local(items@, false)[j] == kept@[j]@);
                assert(!is_hidden_name(shown_local(items@, false)[j].name));
                assert(!is_hidden_name(kept@[j].name@));
            }
        }
    }
    r
}

/// The state of the file manager.
pub struct App {
    pub remote_host_label: String,
    pub local_cwd: String,
    pub local_entries: Vec<LocalEntry>,
    pub local_cursor: usize,
    pub local_selected: HashSet<usize>,
    pub local_scroll: usize,
    pub remote_cwd: String,
    pub remote_entries: Vec<RemoteEntry>,
    pub remote_cursor: usize,
    pub remote_selected: HashSet<usize>,
    pub remote_scroll: usize,
    pub show_hidden: bool,
    pub active_panel: Panel,
    pub mode: AppMode,
    /// A transfer runs in the background.
    pub transfer_active: bool,
    pub progress: ProgressState,
    pub status_msg: String,
    pub error_msg: String,
    /// Visible list rows, set from the screen layout.
    pub visible_height: usize,
    /// Where the panels were last drawn.
    pub local_area: Option<Area>,
    pub remote_area: Option<Area>,
    /// The panel, entry and time in milliseconds of the last click on an entry.
    pub last_click: Option<(Panel, usize, u64)>,
}

/// The state of the file manager as plain values.
pub struct AppView {
    pub remote_host_label: Seq<char>,
    pub local_cwd: Seq<char>,
    pub local_entries: Seq<LocalEntry>,
    pub local_cursor: usize,
    pub local_selected: Set<usize>,
    pub local_scroll: usize,
    pub remote_cwd: Seq<char>,
    pub remote_entries: Seq<RemoteEntry>,
    pub remote_cursor: usize,
    pub remote_selected: Set<usize>,
    pub remote_scroll: usize,
    pub show_hidden: bool,
    pub active_panel: Panel,
    pub mode: AppMode,
    pub transfer_active: bool,
    pub progress: ProgressState,
    pub status_msg: Seq<char>,
    pub error_msg: Seq<char>,
    pub visible_height: usize,
    pub local_area: Option<Area>,
    pub remote_area: Option<Area>,
    pub last_click: Option<(Panel, usize, u64)>,
}

impl View for App {
    type V = AppView;

    open spec fn view(&self) -> AppView {
        AppView {
            remote_host_label: self.remote_host_label@,
            local_cwd: self.local_cwd@,
            local_entries: self.local_entries@,
            local_cursor: self.local_cursor,
            local_selected: self.local_selected@,
            local_scroll: self.local_scroll,
            remote_cwd: self.remote_cwd@,
            remote_entries: self.remote_entries@,
            remote_cursor: self.remote_cursor,
            remote_selected: self.remote_selected@,
            remote_scroll: self.remote_scroll,
            show_hidden: self.show_hidden,
            active_panel: self.active_panel,
            mode: self.mode,
            transfer_active: self.transfer_active,
            progress: self.progress,
            status_msg: self.status_msg@,
            error_msg: self.error_msg@,
            visible_height: self.visible_height,
            local_area: self.local_area,
            remote_area: self.remote_area,
            last_click: self.last_click,
        }
    }
}

/// A cursor is on an entry, or at the top of an empty list.
pub open spec fn cursor_fits(cursor: usize, len: nat) -> bool {
    cursor == 0 || (cursor as nat) < len
}

/// Every selected index is that of an entry.
pub open spec fn selection_fits(selected: Set<usize>, len: nat) -> bool {
    forall|i: usize| #[trigger] selected.contains(i) ==> (i as nat) < len
}

/// The number of list rows shown: the visible height, at least one.
pub open spec fn rows_shown(visible_height: usize) -> int {
    if visible_height == 0 {
        1
    } else {
        visible_height as int
    }
}

/// The row under the cursor lies in the window of `height` rows that starts at `scroll`.
pub open spec fn cursor_shown(cursor: usize, scroll: usize, height: int) -> bool {
    scroll <= cursor < scroll + height
}

/// The scroll offset after moving the window of `height` rows as little as
/// needed to show the cursor: first down, so that the cursor is its last row,
/// then up, so that the cursor is its first row, each only where needed. A
/// window of no rows ends at the cursor.
pub open spec fn clamped_scroll(cursor: usize, scroll: usize, height: int) -> usize {
    let moved: int = if cursor >= scroll + height { cursor + 1 - height } else { scroll as int };
    if (cursor as int) < moved {
        cursor
    } else {
        moved as usize
    }
}

/// The last index of a list of `len` entries, zero for an empty list.
pub open spec fn last_index(len: nat) -> usize {
    if len == 0 {
        0
    } else {
        (len - 1) as usize
    }
}

impl AppView {
    /// Cursors and selections refer to entries that exist.
    pub open spec fn lists_fit(self) -> bool {
        &&& cursor_fits(self.local_cursor, self.local_entries.len())
        &&& cursor_fits(self.remote_cursor, self.remote_entries.len())
        &&& selection_fits(self.local_selected, self.local_entries.len())
        &&& selection_fits(self.remote_selected, self.remote_entries.len())
    }

    /// The state is consistent: cursors and selections fit their lists and both
    /// cursors are inside their panel's visible window.
    pub open spec fn wf(self) -> bool {
        &&& self.lists_fit()
        &&& cursor_shown(self.local_cursor, self.local_scroll, rows_shown(self.visible_height))
        &&& cursor_shown(self.remote_cursor, self.remote_scroll, rows_shown(self.visible_height))
    }

    /// Both panels scrolled just enough to show their cursors.
    pub open spec fn scrolls_clamped(self) -> AppView {
        AppView {
            local_scroll: clamped_scroll(self.local_cursor, self.local_scroll, rows_shown(self.visible_height)),
            remote_scroll: clamped_scroll(self.remote_cursor, self.remote_scroll, rows_shown(self.visible_height)),
            ..self
        }
    }

    /// A new local listing is shown: the cursor stays where it was as far as the
    /// list allows, the selection is cleared.
    pub open spec fn local_refreshed(self, entries: Seq<LocalEntry>) -> AppView {
        AppView {
            local_entries: entries,
            local_cursor: if self.local_cursor <= last_index(entries.len()) {
                self.local_cursor
            } else {
                last_index(entries.len())
            },
            local_selected: Set::empty(),
            ..self
        }.scrolls_clamped()
    }

    /// A remote listing came back: on success as for the local panel; on failure
    /// the error is shown and the panel stays as it was.
    pub open spec fn remote_refreshed(self, outcome: Result<Seq<RemoteEntry>, Seq<char>>) -> AppView {
        match outcome {
            Ok(entries) => AppView {
                remote_entries: entries,
                remote_cursor: if self.remote_cursor <= last_index(entries.len()) {
                    self.remote_cursor
                } else {
                    last_index(entries.len())
                },
                remote_selected: Set::empty(),
                ..self
            }.scrolls_clamped(),
            Err(e) => AppView {
                error_msg: "Failed to list remote dir: "@ + e,
                mode: AppMode::Error,
                ..self
            },
        }
    }

    /// The number of entries in the active panel.
    pub open spec fn active_len(self) -> nat {
        match self.active_panel {
            Panel::Local => self.local_entries.len(),
            Panel::Remote => self.remote_entries.len(),
        }
    }

    /// The directory of the active panel.
    pub open spec fn active_cwd(self) -> Seq<char> {
        match self.active_panel {
            Panel::Local => self.local_cwd,
            Panel::Remote => self.remote_cwd,
        }
    }

    /// The cursor of the active panel.
    pub open spec fn active_cursor(self) -> usize {
        match self.active_panel {
            Panel::Local => self.local_cursor,
            Panel::Remote => self.remote_cursor,
        }
    }

    /// The active panel's cursor set to `c`, then both panels scrolled to show their cursors.
    pub open spec fn with_active_cursor(self, c: usize) -> AppView {
        match self.active_panel {
            Panel::Local => AppView { local_cursor: c, ..self }.scrolls_clamped(),
            Panel::Remote => AppView { remote_cursor: c, ..self }.scrolls_clamped(),
        }
    }

    /// The cursor moved one entry up, unless at the top.
    pub open spec fn cursor_up(self) -> AppView {
        let c = self.active_cursor();
        self.with_active_cursor(if c > 0 { (c - 1) as usize } else { c })
    }

    /// The cursor moved one entry down, unless at the last entry.
    pub open spec fn cursor_down(self) -> AppView {
        let c = self.active_cursor();
        self.with_active_cursor(if c + 1 < self.active_len() { (c + 1) as usize } else { c })
    }

    /// The cursor moved a screenful up, stopping at the top.
    pub open spec fn cursor_page_up(self) -> AppView {
        let c = self.active_cursor();
        let h = rows_shown(self.visible_height);
        self.with_active_cursor(if c >= h { (c - h) as usize } else { 0 })
    }

    /// The cursor moved a screenful down, stopping at the last entry.
    pub open spec fn cursor_page_down(self) -> AppView {
        let c = self.active_cursor();
        let h = rows_shown(self.visible_height);
        let last = last_index(self.active_len());
        self.with_active_cursor(if c + h <= last { (c + h) as usize } else { last })
    }

    /// Opening the entry under the active cursor: a directory becomes the panel's
    /// directory, with cursor and scroll reset and its listing asked for; anything
    /// else changes nothing.
    pub open spec fn dir_entered(self) -> (AppView, Effect) {
        match self.active_panel {
            Panel::Local => if (self.local_cursor as int) < self.local_entries.len()
                && self.local_entries[self.local_cursor as int].is_dir {
                (
                    AppView {
                        local_cwd: self.local_entries[self.local_cursor as int].path@,
                        local_cursor: 0,
                        local_scroll: 0,
                        ..self
                    },
                    Effect::ListLocal,
                )
            } else {
                (self, Effect::Nothing)
            },
            Panel::Remote => if (self.remote_cursor as int) < self.remote_entries.len()
                && self.remote_entries[self.remote_cursor as int].is_dir {
                (
                    AppView {
                        remote_cwd: self.remote_entries[self.remote_cursor as int].path@,
                        remote_cursor: 0,
                        remote_scroll: 0,
                        ..self
                    },
                    Effect::ListRemote,
                )
            } else {
                (self, Effect::Nothing)
            },
        }
    }

    /// Going up a directory: the active panel's directory becomes its parent, with
    /// cursor and scroll reset and its listing asked for; a directory without a
    /// parent changes nothing.
    pub open spec fn parent_entered(self) -> (AppView, Effect) {
        match self.active_panel {
            Panel::Local => match dir_parent(self.local_cwd) {
                Some(p) => (AppView { local_cwd: p, local_cursor: 0, local_scroll: 0, ..self }, Effect::ListLocal),
                None => (self, Effect::Nothing),
            },
            Panel::Remote => match dir_parent(self.remote_cwd) {
                Some(p) => (AppView { remote_cwd: p, remote_cursor: 0, remote_scroll: 0, ..self }, Effect::ListRemote),
                None => (self, Effect::Nothing),
            },
        }
    }

    /// The active selection with the cursor's entry added or taken out.
    pub open spec fn selection_toggled(self) -> AppView {
        match self.active_panel {
            Panel::Local => if self.local_entries.len() > 0 {
                AppView {
                    local_selected: if self.local_selected.contains(self.local_cursor) {
                        self.local_selected.remove(self.local_cursor)
                    } else {
                        self.local_selected.insert(self.local_cursor)
                    },
                    ..self
                }
            } else {
                self
            },
            Panel::Remote => if self.remote_entries.len() > 0 {
                AppView {
                    remote_selected: if self.remote_selected.contains(self.remote_cursor) {
                        self.remote_selected.remove(self.remote_cursor)
                    } else {
                        self.remote_selected.insert(self.remote_cursor)
                    },
                    ..self
                }
            } else {
                self
            },
        }
    }
}

/// Clamping shows the cursor, and leaves the window where it was when the cursor
/// was already shown.
pub proof fn lemma_clamp_shows_cursor(cursor: usize, scroll: usize, height: int)
    requires
        height >= 1,
    ensures
        cursor_shown(cursor, clamped_scroll(cursor, scroll, height), height),
        cursor_shown(cursor, scroll, height) ==> clamped_scroll(cursor, scroll, height) == scroll,
        clamped_scroll(cursor, clamped_scroll(cursor, scroll, height), height) == clamped_scroll(cursor, scroll, height),
{
}

/// Moving the cursor up and then down brings it back, unless it was at the top.
pub proof fn lemma_up_then_down(s: AppView)
    requires
        s.wf(),
        s.active_cursor() > 0,
    ensures
        s.cursor_up().cursor_down().active_cursor() == s.active_cursor(),
{
}

/// Moving the cursor down and then up brings it back, unless it was on the last entry.
pub proof fn lemma_down_then_up(s: AppView)
    requires
        s.wf(),
        s.active_cursor() + 1 < s.active_len(),
        s.active_len() <= usize::MAX,
    ensures
        s.cursor_down().cursor_up().active_cursor() == s.active_cursor(),
{
    let d = s.cursor_down();
    assert(d.active_panel == s.active_panel);
    assert(d.active_cursor() == s.active_cursor() + 1);
    assert(d.active_len() == s.active_len());
}

/// Toggling the selection twice at the same cursor restores it.
pub proof fn lemma_toggle_twice(s: AppView)
    ensures
        s.selection_toggled().selection_toggled().local_selected == s.local_selected,
        s.selection_toggled().selection_toggled().remote_selected == s.remote_selected,
{
    match s.active_panel {
        Panel::Local => {
            if s.local_entries.len() > 0 {
                let t = s.selection_toggled();
                assert(t.local_selected.contains(s.local_cursor) != s.local_selected.contains(s.local_cursor));
                assert(t.selection_toggled().local_selected =~= s.local_selected);
            }
        },
        Panel::Remote => {
            if s.remote_entries.len() > 0 {
                let t = s.selection_toggled();
                assert(t.remote_selected.contains(s.remote_cursor) != s.remote_selected.contains(s.remote_cursor));
                assert(t.selection_toggled().remote_selected =~= s.remote_selected);
            }
        },
    }
}

/// Toggling flips whether the entry under the cursor is selected and leaves every
/// other entry's selection alone.
pub proof fn lemma_toggle_flips_cursor_entry(s: AppView, i: usize)
    requires
        s.active_panel == Panel::Local,
        s.local_entries.len() > 0,
    ensures
        s.selection_toggled().local_selected.contains(s.local_cursor) == !s.local_selected.contains(s.local_cursor),
        i != s.local_cursor ==> s.selection_toggled().local_selected.contains(i) == s.local_selected.contains(i),
        s.selection_toggled().remote_selected == s.remote_selected,
{
}

/// A new local listing keeps the cursor on the same index whenever that index is
/// still in the list, and otherwise puts it on the last entry (the top of an empty
/// list); the entries are the new ones, nothing is selected, and the remote panel,
/// the directory and the active panel are untouched.
pub proof fn lemma_refresh_local_keeps_cursor(s: AppView, entries: Seq<LocalEntry>)
    requires
        entries.len() <= usize::MAX,
    ensures
        ({
            let t = s.local_refreshed(entries);
            &&& (s.local_cursor as int) < entries.len() ==> t.local_cursor == s.local_cursor
            &&& (s.local_cursor as int) >= entries.len() && entries.len() > 0 ==> t.local_cursor == entries.len() - 1
            &&& entries.len() == 0 ==> t.local_cursor == 0
            &&& t.local_entries == entries
            &&& t.local_selected.is_empty()
            &&& t.local_cwd == s.local_cwd
            &&& t.active_panel == s.active_panel
            &&& t.remote_entries == s.remote_entries
            &&& t.remote_cursor == s.remote_cursor
            &&& t.remote_selected == s.remote_selected
        }),
{
}

/// The same for a remote listing that came back; a failed one keeps the remote
/// panel as it was.
pub proof fn lemma_refresh_remote_keeps_cursor(s: AppView, entries: Seq<RemoteEntry>, msg: Seq<char>)
    requires
        entries.len() <= usize::MAX,
    ensures
        ({
            let t = s.remote_refreshed(Ok(entries));
            &&& (s.remote_cursor as int) < entries.len() ==> t.remote_cursor == s.remote_cursor
            &&& (s.remote_cursor as int) >= entries.len() && entries.len() > 0 ==> t.remote_cursor == entries.len() - 1
            &&& entries.len() == 0 ==> t.remote_cursor == 0
            &&& t.remote_entries == entries
            &&& t.remote_selected.is_empty()
            &&& t.remote_cwd == s.remote_cwd
            &&& t.active_panel == s.active_panel
            &&& t.local_entries == s.local_entries
            &&& t.local_cursor == s.local_cursor
            &&& t.local_selected == s.local_selected
        }),
        ({
            let t = s.remote_refreshed(Err(msg));
            &&& t.remote_entries == s.remote_entries
            &&& t.remote_cursor == s.remote_cursor
            &&& t.remote_selected == s.remote_selected
        }),
{
}

/// Opening the entry under the active cursor: a directory of either panel
/// becomes that panel's directory, with its cursor and scroll at the top, its
/// listing asked for and the other panel untouched; an entry that is not a
/// directory, or a cursor past the list, changes nothing and asks for nothing.
pub proof fn lemma_enter_opens_only_directories(s: AppView)
    ensures
        ({
            let (t, e) = s.dir_entered();
            &&& s.active_panel == Panel::Local ==> if (s.local_cursor as int) < s.local_entries.len()
                && s.local_entries[s.local_cursor as int].is_dir {
                &&& e == Effect::ListLocal
                &&& t.local_cwd == s.local_entries[s.local_cursor as int].path@
                &&& t.local_cursor == 0
                &&& t.local_scroll == 0
                &&& t.active_panel == Panel::Local
                &&& t.remote_cwd == s.remote_cwd
                &&& t.remote_cursor == s.remote_cursor
                &&& t.remote_entries == s.remote_entries
            } else {
                t == s && e == Effect::Nothing
            }
            &&& s.active_panel == Panel::Remote ==> if (s.remote_cursor as int) < s.remote_entries.len()
                && s.remote_entries[s.remote_cursor as int].is_dir {
                &&& e == Effect::ListRemote
                &&& t.remote_cwd == s.remote_entries[s.remote_cursor as int].path@
                &&& t.remote_cursor == 0
                &&& t.remote_scroll == 0
                &&& t.active_panel == Panel::Remote
                &&& t.local_cwd == s.local_cwd
                &&& t.local_cursor == s.local_cursor
                &&& t.local_entries == s.local_entries
            } else {
                t == s && e == Effect::Nothing
            }
        }),
{
}

/// The keys that move the cursor move only the active panel's cursor, as far as
/// they say: one entry up or down, stopping at the ends; a screenful (the rows
/// shown) up or down, stopping at the top or at the last entry; to the top; to
/// the last entry.
pub proof fn lemma_cursor_moves(s: AppView)
    requires
        s.local_entries.len() <= usize::MAX,
        s.remote_entries.len() <= usize::MAX,
    ensures
        ({
            let c = s.active_cursor() as int;
            let h = rows_shown(s.visible_height);
            let last: int = if s.active_len() == 0 { 0 } else { s.active_len() - 1 };
            &&& s.cursor_up().active_cursor() == if c > 0 { c - 1 } else { 0 }
            &&& s.cursor_down().active_cursor() == if c + 1 < s.active_len() { c + 1 } else { c }
            &&& s.cursor_page_up().active_cursor() == if c - h > 0 { c - h } else { 0 }
            &&& s.cursor_page_down().active_cursor() == if c + h < last { c + h } else { last }
            &&& s.with_active_cursor(0).active_cursor() == 0
            &&& s.with_active_cursor(last_index(s.active_len())).active_cursor() == last
            &&& s.cursor_page_down().active_panel == s.active_panel
            &&& s.cursor_page_up().active_panel == s.active_panel
            &&& s.cursor_up().active_panel == s.active_panel
            &&& s.cursor_down().active_panel == s.active_panel
        }),
{
}

/// A new listing always leaves a consistent state: the cursor on an entry (or at
/// the top of an empty list), nothing selected, and the cursor shown.
pub proof fn lemma_refresh_local_consistent(s: AppView, entries: Seq<LocalEntry>)
    requires
        s.lists_fit(),
    ensures
        s.local_refreshed(entries).wf(),
        s.local_refreshed(entries).local_selected.is_empty(),
        cursor_fits(s.local_refreshed(entries).local_cursor, entries.len()),
{
}

/// Opening a directory and then showing its listing leaves the panel in that
/// directory, at the top, with nothing selected.
pub proof fn lemma_enter_then_refresh(s: AppView, listing: Seq<LocalEntry>)
    requires
        s.wf(),
        s.active_panel == Panel::Local,
        (s.local_cursor as int) < s.local_entries.len(),
        s.local_entries[s.local_cursor as int].is_dir,
    ensures
        s.dir_entered().1 == Effect::ListLocal,
        s.dir_entered().0.local_refreshed(listing).local_cwd == s.local_entries[s.local_cursor as int].path@,
        s.dir_entered().0.local_refreshed(listing).local_cursor == 0,
        s.dir_entered().0.local_refreshed(listing).local_scroll == 0,
        s.dir_entered().0.local_refreshed(listing).local_selected.is_empty(),
{
}

/// Going up right after opening a directory whose path is the panel's directory
/// joined with the entry's plain name returns the panel to that directory, as
/// paths compare (by components), and to the very same text when the directory
/// is written canonically; the panel is at the top, with nothing selected once the
/// listing is shown. `parent_by_components` is what `go_parent` states of the
/// directory it leaves.
pub proof fn lemma_parent_undoes_enter_local(s: AppView, listing: Seq<LocalEntry>, back: Seq<LocalEntry>)
    requires
        s.wf(),
        s.active_panel == Panel::Local,
        (s.local_cursor as int) < s.local_entries.len(),
        s.local_entries[s.local_cursor as int].is_dir,
        is_plain_name(s.local_entries[s.local_cursor as int].name@),
        s.local_entries[s.local_cursor as int].path@ == joined(s.local_cwd, s.local_entries[s.local_cursor as int].name@),
        parent_by_components(s.local_entries[s.local_cursor as int].path@),
    ensures
        ({
            let inside = s.dir_entered().0.local_refreshed(listing);
            let (up, effect) = inside.parent_entered();
            let shown = up.local_refreshed(back);
            &&& effect == Effect::ListLocal
            &&& same_path(shown.local_cwd, s.local_cwd)
            &&& is_canonical_dir(s.local_cwd) ==> shown.local_cwd == s.local_cwd
            &&& shown.local_cursor == 0
            &&& shown.local_scroll == 0
            &&& shown.local_selected.is_empty()
        }),
{
    let name = s.local_entries[s.local_cursor as int].name@;
    lemma_joined_names(s.local_cwd, name);
    assert(path_names(s.local_cwd).push(name).drop_last() =~= path_names(s.local_cwd));
    if is_canonical_dir(s.local_cwd) {
        lemma_joined_parent(s.local_cwd, name);
    }
}

/// The same for the remote panel, once its listing came back.
pub proof fn lemma_parent_undoes_enter_remote(s: AppView, listing: Seq<RemoteEntry>, back: Seq<RemoteEntry>)
    requires
        s.wf(),
        s.active_panel == Panel::Remote,
        (s.remote_cursor as int) < s.remote_entries.len(),
        s.remote_entries[s.remote_cursor as int].is_dir,
        is_plain_name(s.remote_entries[s.remote_cursor as int].name@),
        s.remote_entries[s.remote_cursor as int].path@ == joined(s.remote_cwd, s.remote_entries[s.remote_cursor as int].name@),
        parent_by_components(s.remote_entries[s.remote_cursor as int].path@),
    ensures
        ({
            let inside = s.dir_entered().0.remote_refreshed(Ok(listing));
            let (up, effect) = inside.parent_entered();
            let shown = up.remote_refreshed(Ok(back));
            &&& effect == Effect::ListRemote
            &&& same_path(shown.remote_cwd, s.remote_cwd)
            &&& is_canonical_dir(s.remote_cwd) ==> shown.remote_cwd == s.remote_cwd
            &&& shown.remote_cursor == 0
            &&& shown.remote_scroll == 0
            &&& shown.remote_selected.is_empty()
        }),
{
    let name = s.remote_entries[s.remote_cursor as int].name@;
    lemma_joined_names(s.remote_cwd, name);
    assert(path_names(s.remote_cwd).push(name).drop_last() =~= path_names(s.remote_cwd));
    if is_canonical_dir(s.remote_cwd) {
        lemma_joined_parent(s.remote_cwd, name);
    }
}

/// Going up from a directory with no component after the root (such as `//` or
/// the empty path) changes nothing and asks for nothing.
pub proof fn lemma_no_component_no_parent(s: AppView)
    requires
        path_names(s.active_cwd()).len() == 0,
        parent_by_components(s.active_cwd()),
    ensures
        s.parent_entered() == (s, Effect::Nothing),
{
}

/// Going up from the root changes nothing and asks for nothing.
pub proof fn lemma_root_has_no_parent(s: AppView)
    requires
        s.active_panel == Panel::Local ==> s.local_cwd == seq!['/'],
        s.active_panel == Panel::Remote ==> s.remote_cwd == seq!['/'],
    ensures
        s.parent_entered() == (s, Effect::Nothing),
{
}

proof fn lemma_last_slash_joined(a: Seq<char>, n: Seq<char>)
    requires
        forall|i: int| 0 <= i < n.len() ==> #[trigger] n[i] != '/',
    ensures
        last_slash(a + seq!['/'] + n) == a.len(),
    decreases n.len(),
{
    let s = a + seq!['/'] + n;
    if n.len() > 0 {
        assert(s.last() == n[n.len() - 1]);
        assert(s.drop_last() =~= a + seq!['/'] + n.drop_last());
        lemma_last_slash_joined(a, n.drop_last());
    }
}

proof fn lemma_no_slash(n: Seq<char>)
    requires
        forall|i: int| 0 <= i < n.len() ==> #[trigger] n[i] != '/',
    ensures
        last_slash(n) == -1,
    decreases n.len(),
{
    if n.len() > 0 {
        assert(n.last() == n[n.len() - 1]);
        lemma_no_slash(n.drop_last());
    }
}

/// A directory joined with a plain name keeps the directory's root, if any, and
/// has the directory's names and then the name.
pub proof fn lemma_joined_names(dir: Seq<char>, name: Seq<char>)
    requires
        is_plain_name(name),
    ensures
        path_rooted(joined(dir, name)) == path_rooted(dir),
        path_names(joined(dir, name)) == path_names(dir).push(name),
{
    let j = joined(dir, name);
    if dir.len() == 0 {
        assert(j =~= name);
        lemma_no_slash(name);
        lemma_no_slash(dir);
        assert(path_names(dir) =~= Seq::<Seq<char>>::empty());
        assert(path_names(j) =~= seq![name]);
        assert(path_names(dir).push(name) =~= seq![name]);
    } else if dir.last() == '/' {
        let a = dir.drop_last();
        assert(j =~= a + seq!['/'] + name);
        assert(dir =~= a + seq!['/'] + Seq::<char>::empty());
        lemma_last_slash_joined(a, name);
        lemma_last_slash_joined(a, Seq::<char>::empty());
        assert(j.take(a.len() as int) =~= a);
        assert(j.skip(a.len() as int + 1) =~= name);
        assert(dir.take(a.len() as int) =~= a);
        assert(dir.skip(a.len() as int + 1) =~= Seq::<char>::empty());
        assert(j[0] == dir[0]);
    } else {
        assert(j =~= dir + seq!['/'] + name);
        lemma_last_slash_joined(dir, name);
        assert(j.take(dir.len() as int) =~= dir);
        assert(j.skip(dir.len() as int + 1) =~= name);
        assert(j[0] == dir[0]);
    }
}

/// A canonical directory joined with a plain name is canonical, and going up from
/// it leads back to the directory.
pub proof fn lemma_joined_parent(dir: Seq<char>, name: Seq<char>)
    requires
        is_canonical_dir(dir),
        is_plain_name(name),
    ensures
        is_canonical_dir(joined(dir, name)),
        joined(dir, name) != seq!['/'],
        dir_parent(joined(dir, name)) == Some(dir),
{
    let a: Seq<char> = if dir == seq!['/'] { Seq::empty() } else { dir };
    let j = joined(dir, name);
    let n = a.len();
    if dir != seq!['/'] {
        if dir.len() == 1 {
            assert(dir =~= seq!['/']);
        }
        assert(dir.len() > 1);
    } else {
        assert(dir.last() == '/');
    }
    assert(j =~= a + seq!['/'] + name);
    if name.len() == 1 && name[0] == '.' {
        assert(name =~= seq!['.']);
    }
    assert(j[n as int] == '/');
    assert forall|i: int| 0 <= i < j.len() - 1 && #[trigger] j[i] == '/' implies j[i + 1] != '/' by {
        if i < n - 1 {
            assert(j[i] == dir[i] && j[i + 1] == dir[i + 1]);
        } else if i == n - 1 {
            assert(j[i] == dir[dir.len() - 1]);
        } else if i == n {
            assert(j[i + 1] == name[0]);
        } else {
            assert(j[i] == name[i - n - 1]);
        }
    }
    assert forall|i: int|
        0 <= i < j.len() - 1 && #[trigger] j[i] == '/' && j[i + 1] == '.' implies i + 2 < j.len() && j[i + 2] != '/' by {
        if i < n - 1 {
            assert(j[i] == dir[i] && j[i + 1] == dir[i + 1]);
            assert(j[i + 2] == dir[i + 2]);
        } else if i == n - 1 {
            assert(j[i] == dir[dir.len() - 1]);
        } else if i == n {
            assert(j[i + 1] == name[0]);
            assert(j[i + 2] == name[1]);
        } else {
            assert(j[i] == name[i - n - 1]);
        }
    }
    assert(j.last() == name[name.len() - 1]);
    lemma_last_slash_joined(a, name);
    if n > 0 {
        assert(j.take(n as int) =~= dir);
    }
}

/// The parent of a path, as `std::path::Path::parent` computes it.
pub uninterp spec fn path_parent(path: Seq<char>) -> Option<Seq<char>>;

/// An absolute directory path written plainly: it starts at the root, has no
/// empty component (`//`), no trailing `/` unless it is the root itself, and no
/// `.` component.
pub open spec fn is_canonical_dir(p: Seq<char>) -> bool {
    &&& p.len() >= 1 && p[0] == '/'
    &&& forall|i: int| 0 <= i < p.len() - 1 && #[trigger] p[i] == '/' ==> p[i + 1] != '/'
    &&& p.len() > 1 ==> p.last() != '/'
    &&& forall|i: int|
        0 <= i < p.len() - 1 && #[trigger] p[i] == '/' && p[i + 1] == '.' ==> i + 2 < p.len() && p[i + 2] != '/'
}

/// A name that is one component of a path: not empty, without `/`, and not `.`.
pub open spec fn is_plain_name(n: Seq<char>) -> bool {
    &&& n.len() >= 1
    &&& forall|i: int| 0 <= i < n.len() ==> #[trigger] n[i] != '/'
    &&& n != seq!['.']
}

/// The path of the entry `name` in the directory `dir`, as `Path::join` writes
/// it for a relative name: a `/` goes between them unless `dir` is empty or
/// already ends with one.
pub open spec fn joined(dir: Seq<char>, name: Seq<char>) -> Seq<char> {
    if dir.len() == 0 || dir.last() == '/' {
        dir + name
    } else {
        dir + seq!['/'] + name
    }
}

/// The index of the last `/` in `s`, or -1 when there is none.
pub open spec fn last_slash(s: Seq<char>) -> int
    decreases s.len(),
{
    if s.len() == 0 {
        -1
    } else if s.last() == '/' {
        s.len() - 1
    } else {
        last_slash(s.drop_last())
    }
}

/// The last `/` of `s`, when there is one, lies in `s`, and no `/` follows it.
pub proof fn lemma_last_slash_bound(s: Seq<char>)
    ensures
        -1 <= last_slash(s) < s.len(),
        last_slash(s) >= 0 ==> s[last_slash(s)] == '/',
        forall|i: int| last_slash(s) < i < s.len() ==> s[i] != '/',
    decreases s.len(),
{
    if s.len() > 0 && s.last() != '/' {
        lemma_last_slash_bound(s.drop_last());
        assert forall|i: int| last_slash(s) < i < s.len() implies s[i] != '/' by {
            if i < s.len() - 1 {
                assert(s[i] == s.drop_last()[i]);
            }
        }
    }
}

/// The path starts at the root.
pub open spec fn path_rooted(p: Seq<char>) -> bool {
    p.len() > 0 && p[0] == '/'
}

/// The names of a path's components after the root, as `Path::components` reads
/// them on this platform: the pieces between `/`s, without empty pieces (repeated
/// or trailing separators) and without `.` pieces, except a `.` that begins a
/// relative path.
pub open spec fn path_names(p: Seq<char>) -> Seq<Seq<char>>
    decreases p.len(),
{
    if last_slash(p) < 0 {
        if p.len() == 0 {
            Seq::empty()
        } else {
            seq![p]
        }
    } else {
        proof {
            lemma_last_slash_bound(p);
        }
        let rest = path_names(p.take(last_slash(p)));
        let piece = p.skip(last_slash(p) + 1);
        if piece.len() == 0 || piece == seq!['.'] {
            rest
        } else {
            rest.push(piece)
        }
    }
}

/// Two paths name the same place when compared as `Path`s compare: by their
/// components.
pub open spec fn same_path(a: Seq<char>, b: Seq<char>) -> bool {
    path_rooted(a) == path_rooted(b) && path_names(a) == path_names(b)
}

/// Going up from `p` (see `dir_parent`) drops its last component: there is no
/// parent where `p` has no component after the root, and otherwise the parent
/// keeps the root, if any, and all names but the last.
pub open spec fn parent_by_components(p: Seq<char>) -> bool {
    match dir_parent(p) {
        None => path_names(p).len() == 0,
        Some(d) => path_names(p).len() > 0 && path_rooted(d) == path_rooted(p) && path_names(d) == path_names(
            p,
        ).drop_last(),
    }
}

/// A canonical path without its last component: the text before its last `/`,
/// or the root when that `/` is the first character.
pub open spec fn canonical_parent(p: Seq<char>) -> Seq<char> {
    if last_slash(p) <= 0 {
        seq!['/']
    } else {
        p.take(last_slash(p))
    }
}

/// The directory that going up from `p` leads to: none from the root or the
/// empty path; for any other canonical path, the path without its last component;
/// otherwise what `Path::parent` answers.
pub open spec fn dir_parent(p: Seq<char>) -> Option<Seq<char>> {
    if p == seq!['/'] || p.len() == 0 {
        None
    } else if is_canonical_dir(p) {
        Some(canonical_parent(p))
    } else {
        path_parent(p)
    }
}

/// Calls `Path::parent` on `path`. Trusted: the answer is `path_parent(path@)`, a
/// function of the path alone. As its documentation says, it is the path without
/// its final component: there is none when the path ends in the root or is empty
/// (no component after the root, in `path_names`), and otherwise the answer has
/// the same root, if any, and the names but the last. Since on this platform `/`
/// alone separates components, for a canonical path other than the root that is
/// the text before its last `/`.
#[verifier::external_body]
fn parent_dir(path: &str) -> (r: Option<String>)
    ensures
        match r {
            Some(p) => path_parent(path@) == Some(p@),
            None => path_parent(path@) is None,
        },
        path@ == seq!['/'] || path@.len() == 0 ==> r is None,
        path_names(path@).len() == 0 ==> r is None,
        path_names(path@).len() > 0 ==> r is Some && path_rooted(r.unwrap()@) == path_rooted(path@)
            && path_names(r.unwrap()@) == path_names(path@).drop_last(),
        is_canonical_dir(path@) && path@ != seq!['/'] ==> r is Some && r.unwrap()@ == canonical_parent(path@),
{
    match std::path::Path::new(path).parent() {
        Some(p) => Some(p.to_string_lossy().into_owned()),
        None => None,
    }
}

/// Moves the window of `height` rows that starts at `*scroll` as little as
/// needed to show row `cursor`.
pub fn clamp_one(cursor: usize, scroll: &mut usize, height: usize)
    ensures
        *final(scroll) == clamped_scroll(cursor, *old(scroll), height as int),
        height >= 1 ==> cursor_shown(cursor, *final(scroll), height as int),
        height == 0 ==> *final(scroll) == cursor,
{
    if cursor >= *scroll && cursor - *scroll >= height {
        if height == 0 {
            *scroll = cursor;
        } else {
            *scroll = cursor - (height - 1);
        }
    }
    if cursor < *scroll {
        *scroll = cursor;
    }
}

impl App {
    /// A fresh state showing the given directories, local panel active.
    pub fn new(
        user: &str,
        host: &str,
        local_cwd: String,
        local_entries: Vec<LocalEntry>,
        remote_cwd: String,
        remote_entries: Vec<RemoteEntry>,
    ) -> (r: App)
        ensures
            r@.wf(),
            r@.remote_host_label == user@ + seq!['@'] + host@,
            r@.local_cwd == local_cwd@,
            r@.local_entries == local_entries@,
            r@.remote_cwd == remote_cwd@,
            r@.remote_entries == remote_entries@,
            r@.local_cursor == 0 && r@.local_scroll == 0 && r@.local_selected.is_empty(),
            r@.remote_cursor == 0 && r@.remote_scroll == 0 && r@.remote_selected.is_empty(),
            !r@.show_hidden,
            r@.active_panel == Panel::Local,
            r@.mode == AppMode::Browse,
            !r@.transfer_active,
            fresh_progress(r@.progress, 0),
            r@.status_msg.len() == 0 && r@.error_msg.len() == 0,
            r@.visible_height == 20,
            r@.local_area is None && r@.remote_area is None && r@.last_click is None,
    {
        let mut label = String::from_str(user);
        label.push('@');
        label.append(host);
        App {
            remote_host_label: label,
            local_cwd,
            local_entries,
            local_cursor: 0,
            local_selected: HashSet::new(),
            local_scroll: 0,
            remote_cwd,
            remote_entries,
            remote_cursor: 0,
            remote_selected: HashSet::new(),
            remote_scroll: 0,
            show_hidden: false,
            active_panel: Panel::Local,
            mode: AppMode::Browse,
            transfer_active: false,
            progress: ProgressState::for_files(0),
            status_msg: String::new(),
            error_msg: String::new(),
            visible_height: 20,
            local_area: None,
            remote_area: None,
            last_click: None,
        }
    }

    /// Clamp both panels' scroll offsets to keep their cursors visible.
    pub fn clamp_scroll(&mut self)
        ensures
            final(self)@ == old(self)@.scrolls_clamped(),
            cursor_shown(final(self).local_cursor, final(self).local_scroll, rows_shown(final(self).visible_height)),
            cursor_shown(final(self).remote_cursor, final(self).remote_scroll, rows_shown(final(self).visible_height)),
    {
        let h = if self.visible_height > 1 { self.visible_height } else { 1 };
        clamp_one(self.local_cursor, &mut self.local_scroll, h);
        clamp_one(self.remote_cursor, &mut self.remote_scroll, h);
    }

    /// Shows a new local listing (see `AppView::local_refreshed`).
    pub fn refresh_local(&mut self, entries: Vec<LocalEntry>)
        requires
            old(self)@.lists_fit(),
        ensures
            final(self)@ == old(self)@.local_refreshed(entries@),
            final(self)@.wf(),
    {
        let last = if entries.len() > 0 { entries.len() - 1 } else { 0 };
        self.local_entries = entries;
        if self.local_cursor > last {
            self.local_cursor = last;
        }
        self.local_selected.clear();
        self.clamp_scroll();
    }

    /// Shows the outcome of listing the remote directory (see `AppView::remote_refreshed`).
    pub fn refresh_remote(&mut self, outcome: Result<Vec<RemoteEntry>, String>)
        requires
            old(self)@.wf(),
        ensures
            final(self)@ == old(self)@.remote_refreshed(
                match outcome {
                    Ok(v) => Ok(v@),
                    Err(e) => Err(e@),
                },
            ),
            final(self)@.wf(),
    {
        match outcome {
            Ok(entries) => {
                let last = if entries.len() > 0 { entries.len() - 1 } else { 0 };
                self.remote_entries = entries;
                if self.remote_cursor > last {
                    self.remote_cursor = last;
                }
                self.remote_selected.clear();
                self.clamp_scroll();
            },
            Err(e) => {
                let mut msg = String::from_str("Failed to list remote dir: ");
                msg.append(e.as_str());
                self.error_msg = msg;
                self.mode = AppMode::Error;
            },
        }
    }

    fn set_active_cursor(&mut self, c: usize)
        requires
            old(self)@.lists_fit(),
            cursor_fits(c, old(self)@.active_len()),
        ensures
            final(self)@ == old(self)@.with_active_cursor(c),
            final(self)@.wf(),
    {
        match self.active_panel {
            Panel::Local => self.local_cursor = c,
            Panel::Remote => self.remote_cursor = c,
        }
        self.clamp_scroll();
    }

    fn active_len(&self) -> (n: usize)
        ensures
            n == self@.active_len(),
    {
        match self.active_panel {
            Panel::Local => self.local_entries.len(),
            Panel::Remote => self.remote_entries.len(),
        }
    }

    fn active_cursor(&self) -> (c: usize)
        ensures
            c == self@.active_cursor(),
    {
        match self.active_panel {
            Panel::Local => self.local_cursor,
            Panel::Remote => self.remote_cursor,
        }
    }

    /// Moves the active panel's cursor one entry up.
    pub fn move_cursor_up(&mut self)
        requires
            old(self)@.wf(),
        ensures
            final(self)@ == old(self)@.cursor_up(),
            final(self)@.wf(),
    {
        let c = self.active_cursor();
        let n = if c > 0 { c - 1 } else { c };
        self.set_active_cursor(n);
    }

    /// Moves the active panel's cursor one entry down.
    pub fn move_cursor_down(&mut self)
        requires
            old(self)@.lists_fit(),
        ensures
            final(self)@ == old(self)@.cursor_down(),
            final(self)@.wf(),
    {
        let c = self.active_cursor();
        let len = self.active_len();
        let n = if len > 0 && c < len - 1 { c + 1 } else { c };
        self.set_active_cursor(n);
    }

    /// Moves the active panel's cursor a screenful up.
    pub fn move_page_up(&mut self)
        requires
            old(self)@.wf(),
        ensures
            final(self)@ == old(self)@.cursor_page_up(),
            final(self)@.wf(),
    {
        let c = self.active_cursor();
        let h = if self.visible_height > 1 { self.visible_height } else { 1 };
        let n = if c >= h { c - h } else { 0 };
        self.set_active_cursor(n);
    }

    /// Moves the active panel's cursor a screenful down.
    pub fn move_page_down(&mut self)
        requires
            old(self)@.wf(),
        ensures
            final(self)@ == old(self)@.cursor_page_down(),
            final(self)@.wf(),
    {
        let c = self.active_cursor();
        let h = if self.visible_height > 1 { self.visible_height } else { 1 };
        let len = self.active_len();
        let last = if len > 0 { len - 1 } else { 0 };
        let n = if c <= last && h <= last - c { c + h } else { last };
        self.set_active_cursor(n);
    }

    /// Moves the active panel's cursor to the first entry.
    pub fn move_to_top(&mut self)
        requires
            old(self)@.wf(),
        ensures
            final(self)@ == old(self)@.with_active_cursor(0),
            final(self)@.wf(),
    {
        self.set_active_cursor(0);
    }

    /// Moves the active panel's cursor to the last entry.
    pub fn move_to_bottom(&mut self)
        requires
            old(self)@.wf(),
        ensures
            final(self)@ == old(self)@.with_active_cursor(last_index(old(self)@.active_len())),
            final(self)@.wf(),
    {
        let len = self.active_len();
        let last = if len > 0 { len - 1 } else { 0 };
        self.set_active_cursor(last);
    }

    /// Opens the directory under the active panel's cursor (see `AppView::dir_entered`).
    pub fn enter_dir(&mut self) -> (e: Effect)
        requires
            old(self)@.wf(),
        ensures
            (final(self)@, e) == old(self)@.dir_entered(),
            final(self)@.wf(),
    {
        match self.active_panel {
            Panel::Local => {
                if self.local_cursor < self.local_entries.len() && self.local_entries[self.local_cursor].is_dir {
                    self.local_cwd = self.local_entries[self.local_cursor].path.clone();
                    self.local_cursor = 0;
                    self.local_scroll = 0;
                    return Effect::ListLocal;
                }
            },
            Panel::Remote => {
                if self.remote_cursor < self.remote_entries.len() && self.remote_entries[self.remote_cursor].is_dir {
                    self.remote_cwd = self.remote_entries[self.remote_cursor].path.clone();
                    self.remote_cursor = 0;
                    self.remote_scroll = 0;
                    return Effect::ListRemote;
                }
            },
        }
        Effect::Nothing
    }

    /// Moves the active panel to the parent of its directory (see `AppView::parent_entered`).
    pub fn go_parent(&mut self) -> (e: Effect)
        requires
            old(self)@.wf(),
        ensures
            (final(self)@, e) == old(self)@.parent_entered(),
            final(self)@.wf(),
            parent_by_components(old(self)@.active_cwd()),
    {
        match self.active_panel {
            Panel::Local => {
                match parent_dir(self.local_cwd.as_str()) {
                    Some(p) => {
                        self.local_cwd = p;
                        self.local_cursor = 0;
                        self.local_scroll = 0;
                        Effect::ListLocal
                    },
                    None => Effect::Nothing,
                }
            },
            Panel::Remote => {
                match parent_dir(self.remote_cwd.as_str()) {
                    Some(p) => {
                        self.remote_cwd = p;
                        self.remote_cursor = 0;
                        self.remote_scroll = 0;
                        Effect::ListRemote
                    },
                    None => Effect::Nothing,
                }
            },
        }
    }

    /// Selects or deselects the entry under the active cursor, then moves the
    /// cursor down.
    pub fn toggle_select(&mut self)
        requires
            old(self)@.wf(),
        ensures
            final(self)@ == old(self)@.selection_toggled().cursor_down(),
            final(self)@.wf(),
    {
        match self.active_panel {
            Panel::Local => {
                if self.local_entries.len() > 0 {
                    let cursor = self.local_cursor;
                    let ghost before = self.local_selected@;
                    if !self.local_selected.remove(&cursor) {
                        self.local_selected.insert(cursor);
                    }
                    assert(self.local_selected@ =~= if before.contains(cursor) {
                        before.remove(cursor)
                    } else {
                        before.insert(cursor)
                    });
                }
            },
            Panel::Remote => {
                if self.remote_entries.len() > 0 {
                    let cursor = self.remote_cursor;
                    let ghost before = self.remote_selected@;
                    if !self.remote_selected.remove(&cursor) {
                        self.remote_selected.insert(cursor);
                    }
                    assert(self.remote_selected@ =~= if before.contains(cursor) {
                        before.remove(cursor)
                    } else {
                        before.insert(cursor)
                    });
                }
            },
        }
        assert(self@ == old(self)@.selection_toggled());
        self.move_cursor_down();
    }

    /// Shows or hides dot files in the local panel and asks for its listing again.
    pub fn toggle_hidden(&mut self) -> (e: Effect)
        requires
            old(self)@.wf(),
        ensures
            final(self)@ == (AppView { show_hidden: !old(self)@.show_hidden, ..old(self)@ }),
            final(self)@.wf(),
            e is ListLocal,
    {
        self.show_hidden = !self.show_hidden;
        Effect::ListLocal
    }

    /// Switches between the local and the remote panel.
    pub fn switch_panel(&mut self)
        ensures
            final(self)@ == (AppView {
                active_panel: match old(self)@.active_panel {
                    Panel::Local => Panel::Remote,
                    Panel::Remote => Panel::Local,
                },
                ..old(self)@
            }),
    {
        self.active_panel = match self.active_panel {
            Panel::Local => Panel::Remote,
            Panel::Remote => Panel::Local,
        };
    }

    /// The local entries an operation acts on (see `picked`).
    pub fn selected_local_entries(&self) -> (r: Vec<&LocalEntry>)
        ensures
            crate::util::picked(r@.unref(), self@.local_entries, self.local_cursor, self@.local_selected),
    {
        crate::util::selected_entries(self.local_entries.as_slice(), self.local_cursor, &self.local_selected)
    }

    /// The remote entries an operation acts on (see `picked`).
    pub fn selected_remote_entries(&self) -> (r: Vec<&RemoteEntry>)
        ensures
            crate::util::picked(r@.unref(), self@.remote_entries, self.remote_cursor, self@.remote_selected),
    {
        crate::util::selected_entries(self.remote_entries.as_slice(), self.remote_cursor, &self.remote_selected)
    }
}

} // verus!

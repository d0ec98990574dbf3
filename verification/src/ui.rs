//! Screen geometry and the text the screen shows.

use vstd::prelude::*;
use vstd::string::*;
use vstd::utf8::*;
use ratatui::layout::{Constraint, Direction, Layout, Rect};
use crate::app::{App, AppView, ConfirmAction, Panel};
use crate::file_ops::ProgressState;
use crate::text::{
    append_padded_end, append_padded_start, decimal, decimal_string, pad_end, pad_start,
};

verus! {

/// A rectangle of terminal cells.
#[derive(Clone, Copy, Debug, PartialEq, Eq, Structural)]
pub struct Area {
    pub x: u16,
    pub y: u16,
    pub width: u16,
    pub height: u16,
}

/// The cell at column `col` and row `row` lies in `a`.
pub open spec fn area_holds(a: Area, col: u16, row: u16) -> bool {
    a.x <= col < a.x + a.width && a.y <= row < a.y + a.height
}

/// How much of a split one part asks for.
#[derive(Clone, Copy, Debug, PartialEq, Eq, Structural)]
pub enum Extent {
    Min(u16),
    Length(u16),
    Percentage(u16),
}

/// `inner` lies inside `outer`.
pub open spec fn area_inside(inner: Area, outer: Area) -> bool {
    &&& outer.x <= inner.x
    &&& inner.x + inner.width <= outer.x + outer.width
    &&& outer.y <= inner.y
    &&& inner.y + inner.height <= outer.y + outer.height
}

/// Where a part starts along the direction of a split.
pub open spec fn seg_start(a: Area, vertical: bool) -> int {
    if vertical { a.y as int } else { a.x as int }
}

/// How long a part is along the direction of a split.
pub open spec fn seg_len(a: Area, vertical: bool) -> int {
    if vertical { a.height as int } else { a.width as int }
}

/// The percentage a part asks for, or none for other kinds of part.
pub open spec fn percent_of(e: Extent) -> int {
    match e {
        Extent::Percentage(p) => p as int,
        _ => 0,
    }
}

/// The percentages asked for by the first `i` parts together.
pub open spec fn percent_before(parts: Seq<Extent>, i: int) -> int
    decreases i,
{
    if i <= 0 {
        0
    } else {
        percent_before(parts, i - 1) + percent_of(parts[i - 1])
    }
}

/// Every part asks for a percentage, and together they ask for at most the whole.
pub open spec fn percentages_fit(parts: Seq<Extent>) -> bool {
    &&& forall|i: int| 0 <= i < parts.len() ==> (#[trigger] parts[i]) is Percentage
    &&& percent_before(parts, parts.len() as int) <= 100
}

/// Part `i` ends within half a cell of where the percentages of the parts up to it
/// reach along `area`.
pub open spec fn ends_at_share(parts: Seq<Extent>, r: Seq<Area>, area: Area, vertical: bool, i: int) -> bool {
    let end = seg_start(r[i], vertical) + seg_len(r[i], vertical) - seg_start(area, vertical);
    -50 <= 100 * end - seg_len(area, vertical) * percent_before(parts, i + 1) <= 50
}

/// Calls ratatui's `Layout::split` with the given direction and constraints.
/// Trusted: one rectangle comes back per constraint. Each spans the whole area
/// across the direction of the split (the crate builds it from the area's `x` and
/// width for a vertical split, its `y` and height for a horizontal one), and along
/// that direction it lies within the area (the solver is given required
/// constraints that keep every boundary between the area's start and end). Where
/// along the direction each part starts and how long it is are left unsaid: the
/// layout solver may settle conflicting constraints differently. Where every
/// part asks for a percentage and together they fit, nothing conflicts but the
/// weak wish of the trailing space and of the parts to grow: the parts then come
/// in order, the first at the area's start and each where the one before ends,
/// and the crate rounds every boundary to the nearest cell of its share.
#[verifier::external_body]
fn split_area(vertical: bool, parts: &Vec<Extent>, area: Area) -> (r: Vec<Area>)
    ensures
        r@.len() == parts@.len(),
        vertical ==> forall|i: int| 0 <= i < r@.len() ==> (#[trigger] r@[i]).x == area.x && r@[i].width == area.width,
        !vertical ==> forall|i: int| 0 <= i < r@.len() ==> (#[trigger] r@[i]).y == area.y && r@[i].height == area.height,
        vertical ==> forall|i: int| 0 <= i < r@.len() ==> area.y <= (#[trigger] r@[i]).y && r@[i].y + r@[i].height <= area.y + area.height,
        !vertical ==> forall|i: int| 0 <= i < r@.len() ==> area.x <= (#[trigger] r@[i]).x && r@[i].x + r@[i].width <= area.x + area.width,
        percentages_fit(parts@) && r@.len() > 0 ==> seg_start(r@[0], vertical) == seg_start(area, vertical),
        percentages_fit(parts@) ==> forall|i: int|
            0 <= i < r@.len() - 1 ==> #[trigger] seg_start(r@[i + 1], vertical) == seg_start(r@[i], vertical) + seg_len(r@[i], vertical),
        percentages_fit(parts@) ==> forall|i: int| 0 <= i < r@.len() ==> #[trigger] ends_at_share(parts@, r@, area, vertical, i),
{
    let direction = if vertical { Direction::Vertical } else { Direction::Horizontal };
    let constraints = parts.iter().map(|p| match *p {
        Extent::Min(v) => Constraint::Min(v),
        Extent::Length(v) => Constraint::Length(v),
        Extent::Percentage(v) => Constraint::Percentage(v),
    });
    let rect = Rect { x: area.x, y: area.y, width: area.width, height: area.height };
    let rects = Layout::default().direction(direction).constraints(constraints).split(rect);
    rects.iter().map(|q| Area { x: q.x, y: q.y, width: q.width, height: q.height }).collect()
}

/// A rectangle `percent_x` wide and `percent_y` high, centred in `r`: the middle
/// part of a three-way split of `r` in each direction, between two margins of
/// `(100 - percent) / 2` percent. Its edges lie within half a cell of where those
/// percentages reach, so it lies inside `r`.
pub fn centered_rect(percent_x: u16, percent_y: u16, r: Area) -> (c: Area)
    requires
        percent_x <= 100,
        percent_y <= 100,
    ensures
        area_inside(c, r),
        -50 <= 100 * (c.x - r.x) - r.width * ((100 - percent_x) / 2) <= 50,
        -50 <= 100 * (c.x + c.width - r.x) - r.width * ((100 - percent_x) / 2 + percent_x) <= 50,
        -50 <= 100 * (c.y - r.y) - r.height * ((100 - percent_y) / 2) <= 50,
        -50 <= 100 * (c.y + c.height - r.y) - r.height * ((100 - percent_y) / 2 + percent_y) <= 50,
{
    let rows = centered_parts(percent_y);
    let vert = split_area(true, &rows, r);
    proof {
        lemma_centered_parts_fit(rows@, percent_y);
        assert(ends_at_share(rows@, vert@, r, true, 0));
        assert(ends_at_share(rows@, vert@, r, true, 1));
        assert(seg_start(vert@[1], true) == seg_start(vert@[0], true) + seg_len(vert@[0], true));
    }
    let cols = centered_parts(percent_x);
    let horiz = split_area(false, &cols, vert[1]);
    proof {
        lemma_centered_parts_fit(cols@, percent_x);
        assert(ends_at_share(cols@, horiz@, vert@[1], false, 0));
        assert(ends_at_share(cols@, horiz@, vert@[1], false, 1));
        assert(seg_start(horiz@[1], false) == seg_start(horiz@[0], false) + seg_len(horiz@[0], false));
    }
    horiz[1]
}

proof fn lemma_centered_parts_fit(v: Seq<Extent>, p: u16)
    requires
        p <= 100,
        v == seq![
            Extent::Percentage(((100 - p) / 2) as u16),
            Extent::Percentage(p),
            Extent::Percentage(((100 - p) / 2) as u16),
        ],
    ensures
        percentages_fit(v),
        percent_before(v, 1) == (100 - p) / 2,
        percent_before(v, 2) == (100 - p) / 2 + p,
{
    reveal_with_fuel(percent_before, 4);
}

/// The three parts of a centring split: a `p` percent middle between two equal
/// margins.
pub fn centered_parts(p: u16) -> (v: Vec<Extent>)
    requires
        p <= 100,
    ensures
        v@ == seq![
            Extent::Percentage(((100 - p) / 2) as u16),
            Extent::Percentage(p),
            Extent::Percentage(((100 - p) / 2) as u16),
        ],
{
    let margin = (100 - p) / 2;
    let mut v: Vec<Extent> = Vec::new();
    v.push(Extent::Percentage(margin));
    v.push(Extent::Percentage(p));
    v.push(Extent::Percentage(margin));
    assert(v@ =~= seq![
        Extent::Percentage(((100 - p) / 2) as u16),
        Extent::Percentage(p),
        Extent::Percentage(((100 - p) / 2) as u16),
    ]);
    v
}

/// The rows of the screen, top to bottom: the panels, at least five rows high,
/// then the progress bar and the legend at the heights given.
pub fn screen_rows(progress_height: u16, help_height: u16) -> (v: Vec<Extent>)
    ensures
        v@ == seq![Extent::Min(5), Extent::Length(progress_height), Extent::Length(help_height)],
{
    let mut v: Vec<Extent> = Vec::new();
    v.push(Extent::Min(5));
    v.push(Extent::Length(progress_height));
    v.push(Extent::Length(help_height));
    assert(v@ =~= seq![Extent::Min(5), Extent::Length(progress_height), Extent::Length(help_height)]);
    v
}

/// The two equal halves of the row of panels.
pub fn panel_halves() -> (v: Vec<Extent>)
    ensures
        v@ == seq![Extent::Percentage(50), Extent::Percentage(50)],
{
    let mut v: Vec<Extent> = Vec::new();
    v.push(Extent::Percentage(50));
    v.push(Extent::Percentage(50));
    assert(v@ =~= seq![Extent::Percentage(50), Extent::Percentage(50)]);
    v
}

/// The key legend at the bottom of the screen: each key with what it does.
pub open spec fn help_table() -> Seq<(&'static str, &'static str)> {
    seq![
        ("[Tab]", "Switch"),
        ("[↑↓/jk]", "Navigate"),
        ("[Enter/→]", "Open"),
        ("[←/BS]", "Back"),
        ("[Space]", "Select"),
        ("[c]", "Copy"),
        ("[d]", "Delete"),
        ("[H]", "Hidden"),
        ("[r]", "Refresh"),
        ("[q]", "Quit"),
    ]
}

/// The key legend (see `help_table`).
pub fn help_items() -> (r: Vec<(&'static str, &'static str)>)
    ensures
        r@ == help_table(),
{
    let r = vec![
        ("[Tab]", "Switch"),
        ("[↑↓/jk]", "Navigate"),
        ("[Enter/→]", "Open"),
        ("[←/BS]", "Back"),
        ("[Space]", "Select"),
        ("[c]", "Copy"),
        ("[d]", "Delete"),
        ("[H]", "Hidden"),
        ("[r]", "Refresh"),
        ("[q]", "Quit"),
    ];
    assert(r@ =~= help_table());
    r
}

/// Cells taken by legend item `i`: key, a space, description, and two spaces
/// before the next item.
pub open spec fn help_item_width(items: Seq<(&'static str, &'static str)>, i: int) -> int {
    items[i].0@.len() + 1 + items[i].1@.len() + if i + 1 < items.len() { 2int } else { 0int }
}

/// Cells taken by the first `k` legend items.
pub open spec fn help_prefix_width(items: Seq<(&'static str, &'static str)>, k: int) -> int
    decreases k,
{
    if k <= 0 {
        0
    } else {
        help_prefix_width(items, k - 1) + help_item_width(items, k - 1)
    }
}

/// The whole legend on one line takes 132 cells.
pub proof fn lemma_help_width()
    ensures
        help_prefix_width(help_table(), 10) == 132,
        forall|i: int| 0 <= i < 10 ==> 0 <= #[trigger] help_item_width(help_table(), i) <= 20,
{
    reveal_strlit("[Tab]");
    reveal_strlit("Switch");
    reveal_strlit("[↑↓/jk]");
    reveal_strlit("Navigate");
    reveal_strlit("[Enter/→]");
    reveal_strlit("Open");
    reveal_strlit("[←/BS]");
    reveal_strlit("Back");
    reveal_strlit("[Space]");
    reveal_strlit("Select");
    reveal_strlit("[c]");
    reveal_strlit("Copy");
    reveal_strlit("[d]");
    reveal_strlit("Delete");
    reveal_strlit("[H]");
    reveal_strlit("Hidden");
    reveal_strlit("[r]");
    reveal_strlit("Refresh");
    reveal_strlit("[q]");
    reveal_strlit("Quit");
    reveal_with_fuel(help_prefix_width, 11);
}

/// Cells available for the legend inside a box of `width` cells.
pub open spec fn legend_room(width: u16) -> int {
    if width >= 2 { width - 2 } else { 0 }
}

/// Rows the legend box needs at a screen width: three when the whole legend fits
/// on one line, four otherwise.
pub fn needed_help_height(width: u16) -> (h: u16)
    ensures
        h == if help_prefix_width(help_table(), 10) <= legend_room(width) { 3u16 } else { 4u16 },
{
    proof {
        lemma_help_width();
    }
    let items = help_items();
    let available: usize = if width >= 2 { (width - 2) as usize } else { 0 };
    let mut total: usize = 0;
    let mut i: usize = 0;
    while i < items.len()
        invariant
            items@ == help_table(),
            i <= 10,
            total == help_prefix_width(help_table(), i as int),
            total <= 20 * i,
            forall|j: int| 0 <= j < 10 ==> 0 <= #[trigger] help_item_width(help_table(), j) <= 20,
        decreases 10 - i,
    {
        let (k, d) = items[i];
        let sep: usize = if i + 1 < items.len() { 2 } else { 0 };
        assert(k@ == help_table()[i as int].0@ && d@ == help_table()[i as int].1@);
        assert(help_item_width(help_table(), i as int) <= 20);
        total = total + k.unicode_len() + 1 + d.unicode_len() + sep;
        i = i + 1;
    }
    if total <= available { 3 } else { 4 }
}

/// The legend needs three rows exactly on screens at least 134 cells wide.
pub proof fn lemma_help_height_threshold(width: u16)
    ensures
        (help_prefix_width(help_table(), 10) <= legend_room(width)) <==> width >= 134,
{
    lemma_help_width();
}

/// The first legend item at or after `i` (and after the first item) that does
/// not fit on the first line within `room` cells, or the number of items.
pub open spec fn help_break_from(items: Seq<(&'static str, &'static str)>, room: int, i: int) -> int
    decreases items.len() - i,
{
    if i >= items.len() {
        items.len() as int
    } else if help_prefix_width(items, i + 1) > room {
        i
    } else {
        help_break_from(items, room, i + 1)
    }
}

/// Where the legend breaks onto a second line within `available` cells: the items
/// before the returned index go on the first line (always at least one item), the
/// rest on the second.
pub fn help_split(available: usize) -> (k: usize)
    ensures
        k == help_break_from(help_table(), available as int, 1),
{
    proof {
        lemma_help_width();
    }
    let items = help_items();
    let mut used: usize = 0;
    let mut i: usize = 0;
    while i < items.len()
        invariant
            items@ == help_table(),
            i <= 10,
            used == help_prefix_width(help_table(), i as int),
            used <= 20 * i,
            forall|j: int| 0 <= j < 10 ==> 0 <= #[trigger] help_item_width(help_table(), j) <= 20,
            i >= 2 ==> help_break_from(help_table(), available as int, 1) == help_break_from(help_table(), available as int, i as int),
        decreases 10 - i,
    {
        let (k, d) = items[i];
        let sep: usize = if i + 1 < items.len() { 2 } else { 0 };
        assert(k@ == help_table()[i as int].0@ && d@ == help_table()[i as int].1@);
        assert(help_item_width(help_table(), i as int) <= 20);
        let width = k.unicode_len() + 1 + d.unicode_len() + sep;
        if i > 0 && used + width > available {
            return i;
        }
        used = used + width;
        i = i + 1;
    }
    10
}

/// The first line of the legend holds at least one item, and when it holds more
/// than one they fit in the room given.
pub proof fn lemma_help_split_fits(room: int, i: int)
    requires
        1 <= i <= 10,
        i >= 2 ==> help_prefix_width(help_table(), i) <= room,
    ensures
        1 <= help_break_from(help_table(), room, i) <= 10,
        help_break_from(help_table(), room, i) >= 2 ==> help_prefix_width(help_table(), help_break_from(help_table(), room, i)) <= room,
    decreases 10 - i,
{
    if i < 10 && help_prefix_width(help_table(), i + 1) <= room {
        lemma_help_split_fits(room, i + 1);
    }
}

/// How many entries a prompt about the active panel talks of: the selected
/// ones, or the one under the cursor when nothing is selected.
pub open spec fn selection_count(s: AppView) -> nat {
    let sel = match s.active_panel {
        Panel::Local => s.local_selected,
        Panel::Remote => s.remote_selected,
    };
    if sel.is_empty() { 1 } else { sel.len() }
}

/// The number of entries a prompt about the active panel talks of (see `selection_count`).
pub fn active_selection_count(app: &App) -> (n: usize)
    ensures
        n == selection_count(app@),
{
    match app.active_panel {
        Panel::Local => if app.local_selected.is_empty() { 1 } else { app.local_selected.len() },
        Panel::Remote => if app.remote_selected.is_empty() { 1 } else { app.remote_selected.len() },
    }
}

/// The text `bytesize` shows for fewer than a thousand bytes: the number and " B".
pub open spec fn small_size_text(bytes: u64) -> Seq<char> {
    decimal(bytes as nat) + seq![' ', 'B']
}

/// A thousand to the power `k`.
pub open spec fn thousand_pow(k: nat) -> nat
    decreases k,
{
    if k == 0 {
        1
    } else {
        1000 * thousand_pow((k - 1) as nat)
    }
}

/// The letter of the `k`-th decimal unit prefix: K, M, G, T, P, E.
pub open spec fn unit_letter(k: nat) -> char {
    seq!['K', 'M', 'G', 'T', 'P', 'E'][k - 1]
}

/// `n` tenths written with one decimal: `n / 10`, a point, and the last digit.
pub open spec fn tenths_text(n: nat) -> Seq<char> {
    decimal(n / 10) + seq!['.'] + decimal(n % 10)
}

/// `n` tenths of the `k`-th unit: the number with one decimal, a space, the unit
/// letter and `B`.
pub open spec fn unit_size_text(n: nat, k: nat) -> Seq<char> {
    tenths_text(n) + seq![' ', unit_letter(k), 'B']
}

/// `n` tenths of the `k`-th unit are `bytes` within a tenth of that unit.
pub open spec fn near_in_tenths(bytes: u64, n: nat, k: nat) -> bool {
    -(thousand_pow(k) as int) <= n * thousand_pow(k) - 10 * bytes <= thousand_pow(k) as int
}

/// `text` is a text `bytesize` may show for `bytes`: below a thousand bytes it is
/// exactly `small_size_text`; from a thousand on it is a number of tenths of one
/// of the units K to E, with one decimal, that is the size within a tenth of that
/// unit. Which unit is chosen, and the last rounding step, come from
/// floating-point logarithms and division and are left open.
pub open spec fn size_text_fits(bytes: u64, text: Seq<char>) -> bool {
    if bytes < 1000 {
        text == small_size_text(bytes)
    } else {
        exists|n: nat, k: nat|
            #![trigger unit_size_text(n, k)]
            1 <= k <= 6 && near_in_tenths(bytes, n, k) && text == unit_size_text(n, k)
    }
}

/// Calls `bytesize::ByteSize`'s `Display`. Trusted: below a thousand bytes the
/// text is the number and " B", as the crate's `to_string` writes it. From a
/// thousand on, `to_string` picks an exponent from 1 to 6 (the quotient of
/// `f64::ln` values, at least 1 and below 7 for any `u64`), divides the size by
/// that power of a thousand and writes it with `{:.1}`, a space, the unit letter
/// of "KMGTPE" and "B": the tenths written are the quotient rounded to the
/// nearest tenth, so they are the size within a tenth of the unit. Which
/// exponent `f64::ln` leads to near a power of a thousand is left open: std does
/// not fix its precision.
#[verifier::external_body]
fn byte_size(bytes: u64) -> (s: String)
    ensures
        size_text_fits(bytes, s@),
{
    bytesize::ByteSize(bytes).to_string()
}

/// The part of a name shown in a listing row: its first 30 bytes of UTF-8.
pub open spec fn shown_name(name: Seq<char>) -> Seq<char> {
    if encode_utf8(name).len() <= 30 {
        name
    } else {
        decode_utf8(encode_utf8(name).subrange(0, 30))
    }
}

/// Cutting the name after 30 bytes of UTF-8 falls between characters.
pub open spec fn name_cut_ok(name: Seq<char>) -> bool {
    encode_utf8(name).len() <= 30 || is_char_boundary(encode_utf8(name), 30)
}

/// The text of one listing row: a selection mark, a directory mark, the name cut
/// after 30 bytes and padded to 30 characters, two spaces, and `<DIR>` or the size
/// text right-aligned in 12 characters.
pub open spec fn file_item_text_of(name: Seq<char>, is_dir: bool, size_text: Seq<char>, selected: bool) -> Seq<char> {
    (if selected { "*"@ } else { " "@ }) + (if is_dir { " ▶ "@ } else { "   "@ }) + pad_end(shown_name(name), 30)
        + "  "@ + if is_dir { "       <DIR>"@ } else { pad_start(size_text, 12) }
}

/// The text of one listing row with the given size text (see `file_item_text_of`).
pub fn file_item_text_with(name: &str, is_dir: bool, size_text: &str, selected: bool) -> (t: String)
    requires
        name_cut_ok(name@),
        encode_utf8(name@).len() <= usize::MAX,
    ensures
        t@ == file_item_text_of(name@, is_dir, size_text@, selected),
{
    let shown: &str = if name.len() <= 30 {
        name
    } else {
        let (head, _) = name.split_at(30);
        proof {
            encode_utf8_decode_utf8(head@);
            assert(encode_utf8(head@) == encode_utf8(name@).subrange(0, 30));
        }
        head
    };
    assert(shown@ == shown_name(name@));
    let mut t = String::from_str(if selected { "*" } else { " " });
    t.append(if is_dir { " ▶ " } else { "   " });
    append_padded_end(&mut t, shown, 30);
    t.append("  ");
    if is_dir {
        t.append("       <DIR>");
    } else {
        append_padded_start(&mut t, size_text, 12);
    }
    t
}

/// The text of one listing row, with the size as `bytesize` writes it (see
/// `file_item_text_of` and `size_text_fits`).
pub fn file_item_text(name: &str, is_dir: bool, size: u64, selected: bool) -> (t: String)
    requires
        name_cut_ok(name@),
        encode_utf8(name@).len() <= usize::MAX,
    ensures
        exists|size_text: Seq<char>|
            #![trigger file_item_text_of(name@, is_dir, size_text, selected)]
            size_text_fits(size, size_text) && t@ == file_item_text_of(name@, is_dir, size_text, selected),
{
    let size_text = byte_size(size);
    let t = file_item_text_with(name, is_dir, size_text.as_str(), selected);
    assert(size_text_fits(size, size_text@));
    t
}

/// A colour the screen uses.
#[derive(Clone, Copy, Debug, PartialEq, Eq, Structural)]
pub enum Shade {
    Cyan,
    DarkGray,
    Yellow,
    Blue,
    White,
}

/// How a listing row is drawn: the colour of its text, and whether it is
/// highlighted (bold, on a dark grey background).
#[derive(Clone, Copy, Debug, PartialEq, Eq, Structural)]
pub struct RowLook {
    pub fg: Shade,
    pub highlighted: bool,
}

/// A selected row is yellow, any other directory blue and any other file white;
/// the row under the active panel's cursor is highlighted.
pub open spec fn row_look_of(selected: bool, is_dir: bool, at_cursor: bool) -> RowLook {
    RowLook {
        fg: if selected {
            Shade::Yellow
        } else if is_dir {
            Shade::Blue
        } else {
            Shade::White
        },
        highlighted: at_cursor,
    }
}

fn row_look(selected: bool, is_dir: bool, at_cursor: bool) -> (l: RowLook)
    ensures
        l == row_look_of(selected, is_dir, at_cursor),
{
    let fg = if selected {
        Shade::Yellow
    } else if is_dir {
        Shade::Blue
    } else {
        Shade::White
    };
    RowLook { fg, highlighted: at_cursor }
}

/// The colour of a panel's border: cyan for the active panel, dark grey for the other.
pub fn border_shade(app: &App, panel: Panel) -> (c: Shade)
    ensures
        c == if app@.active_panel == panel { Shade::Cyan } else { Shade::DarkGray },
{
    if app.active_panel == panel {
        Shade::Cyan
    } else {
        Shade::DarkGray
    }
}

/// One row of a panel's list as it is drawn.
pub struct PanelRow {
    /// The entry's index in the panel's list.
    pub index: usize,
    /// The row's text (see `file_item_text_of`).
    pub text: String,
    pub is_dir: bool,
    /// The entry is selected.
    pub selected: bool,
    /// The entry is under the cursor of the active panel.
    pub at_cursor: bool,
    /// How the row is drawn (see `row_look_of`).
    pub look: RowLook,
}

/// The number of entries in a panel's list.
pub open spec fn panel_len(s: AppView, panel: Panel) -> nat {
    match panel {
        Panel::Local => s.local_entries.len(),
        Panel::Remote => s.remote_entries.len(),
    }
}

/// The name, directory flag and size of entry `i` of a panel.
pub open spec fn panel_entry(s: AppView, panel: Panel, i: int) -> (Seq<char>, bool, u64) {
    match panel {
        Panel::Local => (s.local_entries[i].name@, s.local_entries[i].is_dir, s.local_entries[i].size),
        Panel::Remote => (s.remote_entries[i].name@, s.remote_entries[i].is_dir, s.remote_entries[i].size),
    }
}

/// A panel's scroll offset, cursor and selection.
pub open spec fn panel_place(s: AppView, panel: Panel) -> (usize, usize, Set<usize>) {
    match panel {
        Panel::Local => (s.local_scroll, s.local_cursor, s.local_selected),
        Panel::Remote => (s.remote_scroll, s.remote_cursor, s.remote_selected),
    }
}

/// How many rows a panel shows in a list `rows` high: the entries from its
/// scroll offset on, at most `rows` of them.
pub open spec fn rows_in_window(s: AppView, panel: Panel, rows: nat) -> nat {
    let len = panel_len(s, panel);
    let scroll = panel_place(s, panel).0;
    if scroll >= len {
        0
    } else if len - scroll < rows {
        (len - scroll) as nat
    } else {
        rows
    }
}

/// Entry `i` of a panel has a name that the row text can cut.
pub open spec fn panel_entry_drawable(s: AppView, panel: Panel, i: int) -> bool {
    name_cut_ok(panel_entry(s, panel, i).0) && encode_utf8(panel_entry(s, panel, i).0).len() <= usize::MAX
}

/// `row` is how the `k`-th row of a panel's window is drawn: entry `scroll + k`,
/// its directory flag, whether it is selected, whether the active panel's cursor
/// is on it, its colours (see `row_look_of`), and its text with a size text that
/// `bytesize` may write for its size.
pub open spec fn row_shows(s: AppView, panel: Panel, k: int, row: PanelRow) -> bool {
    let i = panel_place(s, panel).0 + k;
    let name = panel_entry(s, panel, i).0;
    let is_dir = panel_entry(s, panel, i).1;
    &&& row.index == i
    &&& row.is_dir == is_dir
    &&& row.selected == panel_place(s, panel).2.contains(row.index)
    &&& row.at_cursor == (row.index == panel_place(s, panel).1 && s.active_panel == panel)
    &&& row.look == row_look_of(row.selected, row.is_dir, row.at_cursor)
    &&& exists|size_text: Seq<char>|
        #![trigger file_item_text_of(name, is_dir, size_text, row.selected)]
        size_text_fits(panel_entry(s, panel, i).2, size_text) && row.text@ == file_item_text_of(
            name,
            is_dir,
            size_text,
            row.selected,
        )
}

impl App {
    /// The rows a panel shows in a list `rows` high: from its scroll offset on, each
    /// with its text, whether it is a directory, whether it is selected, whether
    /// the active panel's cursor is on it, and how it is drawn.
    pub fn panel_rows(&self, panel: Panel, rows: usize) -> (r: Vec<PanelRow>)
        requires
            forall|i: int|
                panel_place(self@, panel).0 <= i < panel_place(self@, panel).0 + rows && i < panel_len(self@, panel)
                    ==> #[trigger] panel_entry_drawable(self@, panel, i),
        ensures
            r@.len() == rows_in_window(self@, panel, rows as nat),
            forall|k: int| 0 <= k < r@.len() ==> row_shows(self@, panel, k, #[trigger] r@[k]),
    {
        let (len, scroll, cursor) = match panel {
            Panel::Local => (self.local_entries.len(), self.local_scroll, self.local_cursor),
            Panel::Remote => (self.remote_entries.len(), self.remote_scroll, self.remote_cursor),
        };
        let active = self.active_panel == panel;
        let mut r: Vec<PanelRow> = Vec::new();
        let mut i: usize = scroll;
        while i < len && i - scroll < rows
            invariant
                len == panel_len(self@, panel),
                scroll == panel_place(self@, panel).0,
                cursor == panel_place(self@, panel).1,
                active == (self@.active_panel == panel),
                scroll <= i <= len || (i == scroll && scroll > len),
                i - scroll <= rows || i == scroll,
                r@.len() == i - scroll,
                forall|j: int|
                    panel_place(self@, panel).0 <= j < panel_place(self@, panel).0 + rows && j < panel_len(self@, panel)
                        ==> #[trigger] panel_entry_drawable(self@, panel, j),
                forall|k: int| 0 <= k < r@.len() ==> row_shows(self@, panel, k, #[trigger] r@[k]),
            decreases len - i,
        {
            assert(panel_entry_drawable(self@, panel, i as int));
            let (name, is_dir, size, selected) = match panel {
                Panel::Local => {
                    let e = &self.local_entries[i];
                    (e.name.as_str(), e.is_dir, e.size, self.local_selected.contains(&i))
                },
                Panel::Remote => {
                    let e = &self.remote_entries[i];
                    (e.name.as_str(), e.is_dir, e.size, self.remote_selected.contains(&i))
                },
            };
            assert((name@, is_dir, size) == panel_entry(self@, panel, i as int));
            assert(selected == panel_place(self@, panel).2.contains(i));
            let text = file_item_text(name, is_dir, size, selected);
            let ghost before = r@;
            let at_cursor = active && i == cursor;
            let look = row_look(selected, is_dir, at_cursor);
            let row = PanelRow { index: i, text, is_dir, selected, at_cursor, look };
            proof {
                let st = choose|st: Seq<char>|
                    size_text_fits(size, st) && text@ == #[trigger] file_item_text_of(name@, is_dir, st, selected);
                assert(size_text_fits(size, st) && row.text@ == file_item_text_of(name@, is_dir, st, selected));
                let k = i - scroll;
                assert(panel_place(self@, panel).0 + k == i);
                assert(panel_entry(self@, panel, panel_place(self@, panel).0 + k).0 == name@);
                assert(row.index == panel_place(self@, panel).0 + k);
                assert(row.is_dir == panel_entry(self@, panel, panel_place(self@, panel).0 + k).1);
                assert(row.selected == panel_place(self@, panel).2.contains(row.index));
                assert(row.at_cursor == (row.index == panel_place(self@, panel).1 && self@.active_panel == panel));
                assert(row_shows(self@, panel, k, row));
            }
            r.push(row);
            assert(forall|k: int| 0 <= k < before.len() ==> r@[k] == before[k]);
            i = i + 1;
        }
        r
    }
}

/// The label of the progress bar, given the size texts of the bytes done and of
/// the total: file name, bytes done and total, and files done and total, once the
/// total is known.
pub open spec fn progress_label_of(p: ProgressState, done_text: Seq<char>, total_text: Seq<char>) -> Seq<char> {
    if p.bytes_total > 0 {
        " "@ + p.current_file@ + " ["@ + done_text + "/"@ + total_text + "]  "@
            + decimal(p.files_done as nat) + "/"@ + decimal(p.files_total as nat) + " files"@
    } else {
        " Transferring..."@
    }
}

/// The label of the progress bar with the given size texts (see `progress_label_of`).
pub fn progress_label_with(p: &ProgressState, done_text: &str, total_text: &str) -> (t: String)
    ensures
        t@ == progress_label_of(*p, done_text@, total_text@),
{
    if p.bytes_total > 0 {
        let mut t = String::from_str(" ");
        t.append(p.current_file.as_str());
        t.append(" [");
        t.append(done_text);
        t.append("/");
        t.append(total_text);
        t.append("]  ");
        t.append(decimal_string(p.files_done as u64).as_str());
        t.append("/");
        t.append(decimal_string(p.files_total as u64).as_str());
        t.append(" files");
        t
    } else {
        String::from_str(" Transferring...")
    }
}

/// The label of the progress bar, with sizes as `bytesize` writes them (see
/// `progress_label_of` and `size_text_fits`).
pub fn progress_label(p: &ProgressState) -> (t: String)
    ensures
        exists|done_text: Seq<char>, total_text: Seq<char>|
            #![trigger progress_label_of(*p, done_text, total_text)]
            size_text_fits(p.bytes_done, done_text) && size_text_fits(p.bytes_total, total_text)
                && t@ == progress_label_of(*p, done_text, total_text),
{
    let done = byte_size(p.bytes_done);
    let total = byte_size(p.bytes_total);
    let t = progress_label_with(p, done.as_str(), total.as_str());
    assert(size_text_fits(p.bytes_done, done@) && size_text_fits(p.bytes_total, total@));
    t
}

/// The title and message of a confirmation prompt about the active panel.
pub open spec fn confirm_text_of(s: AppView, action: ConfirmAction) -> (Seq<char>, Seq<char>) {
    let count = decimal(selection_count(s));
    match action {
        ConfirmAction::Delete => (
            " Confirm Delete "@,
            "Delete "@ + count + " item(s)?  [y] Yes  [any] Cancel"@,
        ),
        ConfirmAction::Copy => {
            let (src, dst) = match s.active_panel {
                Panel::Local => ("local"@, "remote"@),
                Panel::Remote => ("remote"@, "local"@),
            };
            (
                " Confirm Copy "@,
                "Copy "@ + count + " item(s) from "@ + src + " → "@ + dst + "?  [y] Yes  [any] Cancel"@,
            )
        },
    }
}

/// The title and message of a confirmation prompt (see `confirm_text_of`).
pub fn confirm_text(app: &App, action: ConfirmAction) -> (r: (String, String))
    ensures
        (r.0@, r.1@) == confirm_text_of(app@, action),
{
    let count = active_selection_count(app);
    let count_text = decimal_string(count as u64);
    match action {
        ConfirmAction::Delete => {
            let mut body = String::from_str("Delete ");
            body.append(count_text.as_str());
            body.append(" item(s)?  [y] Yes  [any] Cancel");
            (String::from_str(" Confirm Delete "), body)
        },
        ConfirmAction::Copy => {
            let (src, dst) = match app.active_panel {
                Panel::Local => ("local", "remote"),
                Panel::Remote => ("remote", "local"),
            };
            let mut body = String::from_str("Copy ");
            body.append(count_text.as_str());
            body.append(" item(s) from ");
            body.append(src);
            body.append(" → ");
            body.append(dst);
            body.append("?  [y] Yes  [any] Cancel");
            (String::from_str(" Confirm Copy "), body)
        },
    }
}

/// The title of a panel's box: its directory, and for the remote panel the host.
pub open spec fn panel_title_of(s: AppView, panel: Panel) -> Seq<char> {
    match panel {
        Panel::Local => " Local: "@ + s.local_cwd + " "@,
        Panel::Remote => " Remote ["@ + s.remote_host_label + "]: "@ + s.remote_cwd + " "@,
    }
}

/// The title of a panel's box (see `panel_title_of`).
pub fn panel_title(app: &App, panel: Panel) -> (t: String)
    ensures
        t@ == panel_title_of(app@, panel),
{
    match panel {
        Panel::Local => {
            let mut t = String::from_str(" Local: ");
            t.append(app.local_cwd.as_str());
            t.append(" ");
            t
        },
        Panel::Remote => {
            let mut t = String::from_str(" Remote [");
            t.append(app.remote_host_label.as_str());
            t.append("]: ");
            t.append(app.remote_cwd.as_str());
            t.append(" ");
            t
        },
    }
}

/// The parts of the screen: the row of panels, the progress bar, the legend, and
/// the two panels; with the heights asked for the progress bar and the legend.
pub struct ScreenLayout {
    pub panels: Area,
    pub progress: Area,
    pub help: Area,
    pub local: Area,
    pub remote: Area,
    pub progress_height: u16,
    pub help_height: u16,
}

/// `part` lies inside `whole` and spans its full width.
pub open spec fn spans_width_of(part: Area, whole: Area) -> bool {
    area_inside(part, whole) && part.x == whole.x && part.width == whole.width
}

/// `part` lies inside `whole` and spans its full height.
pub open spec fn spans_height_of(part: Area, whole: Area) -> bool {
    area_inside(part, whole) && part.y == whole.y && part.height == whole.height
}

/// The panels drawn at the given areas: the list shows the local panel's height
/// less its two border rows, at least one row, and both panels scroll to show
/// their cursors.
pub open spec fn panels_placed(s: AppView, local: Area, remote: Area) -> AppView {
    AppView {
        visible_height: if local.height >= 3 { (local.height - 2) as usize } else { 1 },
        local_area: Some(local),
        remote_area: Some(remote),
        ..s
    }.scrolls_clamped()
}

/// Placing the panels records their areas, shows as many list rows as the local
/// panel has inside its borders (at least one), keeps every cursor, selection and
/// listing, and leaves each panel's window where it was when its cursor is still
/// shown there, or moves it so that the cursor is shown.
pub proof fn lemma_panels_placed(s: AppView, local: Area, remote: Area)
    ensures
        ({
            let t = panels_placed(s, local, remote);
            let h: int = if local.height >= 3 { local.height - 2 } else { 1 };
            &&& t.visible_height == h
            &&& t.local_area == Some(local) && t.remote_area == Some(remote)
            &&& t.local_cursor == s.local_cursor && t.remote_cursor == s.remote_cursor
            &&& t.local_entries == s.local_entries && t.remote_entries == s.remote_entries
            &&& t.local_selected == s.local_selected && t.remote_selected == s.remote_selected
            &&& t.active_panel == s.active_panel && t.mode == s.mode
            &&& t.local_scroll <= t.local_cursor < t.local_scroll + h
            &&& t.remote_scroll <= t.remote_cursor < t.remote_scroll + h
            &&& s.local_scroll <= s.local_cursor < s.local_scroll + h ==> t.local_scroll == s.local_scroll
            &&& s.remote_scroll <= s.remote_cursor < s.remote_scroll + h ==> t.remote_scroll == s.remote_scroll
        }),
{
}

impl App {
    /// Records where the panels are drawn (see `panels_placed`).
    pub fn place_panels(&mut self, local: Area, remote: Area)
        requires
            old(self)@.lists_fit(),
        ensures
            final(self)@ == panels_placed(old(self)@, local, remote),
            final(self)@.wf(),
    {
        let rows: u16 = if local.height >= 3 { local.height - 2 } else { 1 };
        self.visible_height = rows as usize;
        self.local_area = Some(local);
        self.remote_area = Some(remote);
        self.clamp_scroll();
    }

    /// Lays out a screen of the given size: a row of panels at least five rows
    /// high, a three-row progress bar while a transfer runs or a total is known,
    /// and the legend (three rows while a transfer runs, else as
    /// `needed_help_height` says); the row of panels is split in two halves,
    /// which are then placed as `place_panels` does.
    pub fn layout_screen(&mut self, screen: Area) -> (r: ScreenLayout)
        requires
            old(self)@.lists_fit(),
        ensures
            r.progress_height == if old(self).transfer_active || old(self).progress.bytes_total > 0 { 3u16 } else { 0u16 },
            r.help_height == if old(self).transfer_active {
                3u16
            } else if help_prefix_width(help_table(), 10) <= legend_room(screen.width) {
                3u16
            } else {
                4u16
            },
            final(self)@ == panels_placed(old(self)@, r.local, r.remote),
            final(self)@.wf(),
            spans_width_of(r.panels, screen),
            spans_width_of(r.progress, screen),
            spans_width_of(r.help, screen),
            spans_height_of(r.local, r.panels),
            spans_height_of(r.remote, r.panels),
            r.local.x == r.panels.x,
            r.remote.x == r.local.x + r.local.width,
            r.remote.x + r.remote.width == r.panels.x + r.panels.width,
            -50 <= 100 * r.local.width - 50 * r.panels.width <= 50,
    {
        let transferring = self.transfer_active;
        let progress_height: u16 = if transferring || self.progress.bytes_total > 0 { 3 } else { 0 };
        let help_height: u16 = if transferring { 3 } else { needed_help_height(screen.width) };
        let rows = screen_rows(progress_height, help_height);
        let chunks = split_area(true, &rows, screen);
        let halves = panel_halves();
        let panels = split_area(false, &halves, chunks[0]);
        proof {
            reveal_with_fuel(percent_before, 3);
            assert(percentages_fit(halves@));
            assert(percent_before(halves@, 1) == 50);
            assert(percent_before(halves@, 2) == 100);
            assert(ends_at_share(halves@, panels@, chunks@[0], false, 0));
            assert(ends_at_share(halves@, panels@, chunks@[0], false, 1));
            let e: int = panels@[1].x + panels@[1].width - chunks@[0].x;
            let w: int = chunks@[0].width as int;
            assert(-50 <= 100 * e - w * 100 <= 50);
            assert(e == w) by (nonlinear_arith)
                requires
                    -50 <= 100 * e - w * 100 <= 50,
            ;
            assert(w * percent_before(halves@, 1) == w * 50);
            let lw: int = panels@[0].width as int;
            assert(-50 <= 100 * lw - w * 50 <= 50);
            assert(-50 <= 100 * lw - 50 * w <= 50) by (nonlinear_arith)
                requires
                    -50 <= 100 * lw - w * 50 <= 50,
            ;
            assert(seg_start(panels@[1], false) == seg_start(panels@[0], false) + seg_len(panels@[0], false));
        }
        self.place_panels(panels[0], panels[1]);
        ScreenLayout {
            panels: chunks[0],
            progress: chunks[1],
            help: chunks[2],
            local: panels[0],
            remote: panels[1],
            progress_height,
            help_height,
        }
    }
}

} // verus!

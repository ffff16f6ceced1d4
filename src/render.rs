use vstd::prelude::*;
use vstd::string::StrSliceExecFns;
use crate::entry::{Entry, EntryKind, Item};
use crate::layout::{GridLayout, BORDER_ROWS, CELL_WIDTH};
use crate::nav::NavState;

verus! {

/// Characters a real entry's name may take in a cell.
pub const NAME_WIDTH: usize = 17;

/// Characters a symbolic tag takes in a cell: a space, the glyph, a space.
pub const TAG_WIDTH: usize = 3;

/// The symbolic tag drawn before an entry's name.
#[derive(Clone, Copy, Debug, PartialEq, Eq, Structural)]
pub enum Tag {
    File,
    Directory,
    LockedDirectory,
    Symlink,
    Other,
}

/// One cell of a frame: an optional tag, then `text`, which holds the label
/// and the padding up to the cell width.
#[derive(Debug)]
pub struct Cell {
    pub tag: Option<Tag>,
    pub text: String,
    pub highlighted: bool,
}

pub struct CellView {
    pub tag: Option<Tag>,
    pub text: Seq<char>,
    pub highlighted: bool,
}

impl View for Cell {
    type V = CellView;

    open spec fn view(&self) -> CellView {
        CellView { tag: self.tag, text: self.text@, highlighted: self.highlighted }
    }
}

/// Relies on `String::push`: appends one character.
#[verifier::external_body]
fn push_char(s: &mut String, c: char)
    ensures
        final(s)@ == old(s)@.push(c),
{
    s.push(c);
}

/// Relies on `String::push_str`: appends a string slice.
#[verifier::external_body]
fn push_str(s: &mut String, t: &str)
    ensures
        final(s)@ == old(s)@ + t@,
{
    s.push_str(t);
}

/// `n` copies of `c`.
pub open spec fn repeat(c: char, n: nat) -> Seq<char> {
    Seq::new(n, |_i: int| c)
}

fn push_repeat(s: &mut String, c: char, n: usize)
    ensures
        final(s)@ == old(s)@ + repeat(c, n as nat),
{
    let ghost start = s@;
    let mut k: usize = 0;
    while k < n
        invariant
            k <= n,
            s@ == start + repeat(c, k as nat),
        decreases n - k,
    {
        push_char(s, c);
        k = k + 1;
        assert(s@ == start + repeat(c, k as nat));
    }
}

/// The tag of an entry, by its kind and, for a directory, whether it can be read.
pub open spec fn tag_spec(e: Entry) -> Tag {
    match e.kind {
        EntryKind::File => Tag::File,
        EntryKind::Directory => if e.readable { Tag::Directory } else { Tag::LockedDirectory },
        EntryKind::SymlinkToDirectory => Tag::Symlink,
        EntryKind::SymlinkToOther => Tag::Symlink,
        EntryKind::Other => Tag::Other,
    }
}

pub fn tag_of(e: &Entry) -> (r: Tag)
    ensures
        r == tag_spec(*e),
{
    match e.kind {
        EntryKind::File => Tag::File,
        EntryKind::Directory => if e.readable { Tag::Directory } else { Tag::LockedDirectory },
        EntryKind::SymlinkToDirectory => Tag::Symlink,
        EntryKind::SymlinkToOther => Tag::Symlink,
        EntryKind::Other => Tag::Other,
    }
}

pub open spec fn back_label() -> Seq<char> {
    seq!['G', 'o', ' ', 'B', 'a', 'c', 'k']
}

pub open spec fn close_label() -> Seq<char> {
    seq!['E', 'x', 'i', 't']
}

/// The words of a cell: fixed ones for Back and Close, the name cut to
/// `NAME_WIDTH` characters for an entry.
pub open spec fn label_spec(item: Item) -> Seq<char> {
    match item {
        Item::Back => back_label(),
        Item::Close => close_label(),
        Item::Entry(e) => if e.name@.len() <= NAME_WIDTH { e.name@ } else { e.name@.take(NAME_WIDTH as int) },
    }
}

/// A real entry carries a tag when tags are on.
pub open spec fn cell_tag_spec(item: Item, tags: bool) -> Option<Tag> {
    match item {
        Item::Entry(e) => if tags { Some(tag_spec(e)) } else { None },
        _ => None,
    }
}

/// A cell: its tag, its label padded with spaces to fill the cell width, and
/// whether it is the selected one.
pub open spec fn cell_spec(item: Item, tags: bool, highlighted: bool) -> CellView {
    let tag = cell_tag_spec(item, tags);
    let used = label_spec(item).len() + if tag is Some { TAG_WIDTH as nat } else { 0 };
    CellView {
        tag,
        text: label_spec(item) + repeat(' ', (CELL_WIDTH as nat - used) as nat),
        highlighted,
    }
}

/// Renders one item as a cell.
pub fn cell(item: &Item, tags: bool, highlighted: bool) -> (r: Cell)
    ensures
        r@ == cell_spec(*item, tags, highlighted),
        r@.text.len() + (if r@.tag is Some { TAG_WIDTH as nat } else { 0 }) == CELL_WIDTH as nat,
{
    let (tag, mut text) = match item {
        Item::Back => {
            let t = "Go Back".to_owned();
            proof {
                reveal_strlit("Go Back");
            }
            assert(t@ == back_label());
            (None, t)
        },
        Item::Close => {
            let t = "Exit".to_owned();
            proof {
                reveal_strlit("Exit");
            }
            assert(t@ == close_label());
            (None, t)
        },
        Item::Entry(e) => {
            let s = e.name.as_str();
            let n: usize = s.unicode_len();
            let take: usize = if n <= NAME_WIDTH { n } else { NAME_WIDTH };
            let t = s.substring_char(0, take).to_owned();
            assert(t@ == label_spec(*item));
            (if tags { Some(tag_of(e)) } else { None }, t)
        },
    };
    let used: usize = text.as_str().unicode_len() + if tag.is_some() { TAG_WIDTH } else { 0 };
    push_repeat(&mut text, ' ', CELL_WIDTH as usize - used);
    Cell { tag, text, highlighted }
}

/// Width of the whole box: the cells, a gap between each two, and the two sides.
pub open spec fn box_width_spec(l: GridLayout) -> nat {
    l.total_width as nat + l.columns as nat + 1
}

/// Characters of the directory shown in the top border.
pub open spec fn shown_dir_len(dir: Seq<char>, l: GridLayout) -> nat {
    let room = (l.total_width as nat - 4) as nat;
    if dir.len() <= room { dir.len() } else { room }
}

/// The top border: corner, the directory cut to fit, the rest of the line, corner.
pub open spec fn top_border_spec(dir: Seq<char>, l: GridLayout) -> Seq<char> {
    let p = shown_dir_len(dir, l);
    seq!['\u{256d}', '\u{2524}'] + dir.take(p as int) + seq!['\u{251c}']
        + repeat('\u{2500}', (l.total_width as nat + l.columns as nat - p - 3) as nat) + seq!['\u{256e}']
}

/// The bottom border: corner, line, corner.
pub open spec fn bottom_border_spec(l: GridLayout) -> Seq<char> {
    seq!['\u{2570}'] + repeat('\u{2500}', (l.total_width as nat + l.columns as nat - 1) as nat) + seq!['\u{256f}']
}

pub fn top_border(dir: &String, l: &GridLayout) -> (r: String)
    requires
        l.wf(),
    ensures
        r@ == top_border_spec(dir@, *l),
        r@.len() == box_width_spec(*l),
{
    let s = dir.as_str();
    let n: usize = s.unicode_len();
    let room: usize = (l.total_width - 4) as usize;
    let p: usize = if n <= room { n } else { room };
    let mut r = String::new();
    push_char(&mut r, '\u{256d}');
    push_char(&mut r, '\u{2524}');
    push_str(&mut r, s.substring_char(0, p));
    push_char(&mut r, '\u{251c}');
    push_repeat(&mut r, '\u{2500}', l.total_width as usize + l.columns - p - 3);
    push_char(&mut r, '\u{256e}');
    assert(r@ =~= top_border_spec(dir@, *l));
    r
}

pub fn bottom_border(l: &GridLayout) -> (r: String)
    requires
        l.wf(),
    ensures
        r@ == bottom_border_spec(*l),
        r@.len() == box_width_spec(*l),
{
    let mut r = String::new();
    push_char(&mut r, '\u{2570}');
    push_repeat(&mut r, '\u{2500}', l.total_width as usize + l.columns - 1);
    push_char(&mut r, '\u{256f}');
    assert(r@ =~= bottom_border_spec(*l));
    r
}

/// Everything one frame draws, top to bottom.
///
/// `cells` are the items from `first_index` on, in row-major order; they wrap
/// after the layout's number of columns, the first one on the row below
/// `top_row`. `feed_lines` newlines are written first, so that a box below the
/// prompt fits on the screen.
#[derive(Debug)]
pub struct Frame {
    pub clear_screen: bool,
    pub feed_lines: u16,
    pub top_row: u16,
    pub top_border: String,
    pub first_index: usize,
    pub cells: Vec<Cell>,
    pub bottom_row: u16,
    pub bottom_border: String,
    pub box_width: usize,
}

/// The first grid row drawn: the scroll offset when the grid scrolls.
pub open spec fn first_row_spec(l: GridLayout, scroll: nat) -> nat {
    if l.scrollable {
        if scroll <= l.rows { scroll } else { l.rows as nat }
    } else {
        0
    }
}

/// Grid rows that fit between the borders.
pub open spec fn room_rows_spec(l: GridLayout) -> nat {
    if l.scrollable {
        if l.terminal_height >= BORDER_ROWS { (l.terminal_height - BORDER_ROWS) as nat } else { 0 }
    } else {
        l.rows as nat
    }
}

/// Grid rows drawn from `first` on.
pub open spec fn shown_rows_spec(l: GridLayout, first: nat) -> nat {
    let left = (l.rows - first) as nat;
    if left <= room_rows_spec(l) { left } else { room_rows_spec(l) }
}

/// Index of the first item of `row`, or `len` past the end.
pub open spec fn row_start_spec(row: nat, columns: nat, len: nat) -> nat {
    if row * columns <= len { row * columns } else { len }
}

/// Whether a box drawn from `start` runs past the bottom of the terminal.
pub open spec fn overflows(l: GridLayout, start: u16) -> bool {
    !l.scrollable && start as nat + l.rows as nat + BORDER_ROWS as nat > l.terminal_height as nat
}

/// Row of the top border: the top of the screen for a scrolling grid, else
/// the given row, raised so that the box ends on the last screen row.
pub open spec fn top_row_spec(l: GridLayout, start: u16) -> nat {
    if l.scrollable {
        0
    } else if overflows(l, start) {
        (l.terminal_height - l.rows - BORDER_ROWS) as nat
    } else {
        start as nat
    }
}

/// Lines to feed so that the raised box has room below the prompt.
pub open spec fn feed_spec(l: GridLayout, start: u16) -> nat {
    if overflows(l, start) {
        (start as nat + l.rows as nat + BORDER_ROWS as nat - l.terminal_height as nat) as nat
    } else {
        0
    }
}

fn row_start(row: usize, columns: usize, len: usize) -> (r: usize)
    ensures
        r == row_start_spec(row as nat, columns as nat, len as nat),
{
    match row.checked_mul(columns) {
        Some(v) => if v <= len { v } else { len },
        None => len,
    }
}

/// Plans the frame for the state over the current items.
pub fn plan_frame(l: &GridLayout, state: &NavState, items: &Vec<Item>, tags: bool) -> (f: Frame)
    requires
        *l == crate::layout::layout_spec(items@.len(), l.terminal_width, l.terminal_height),
    ensures
        f.clear_screen == l.scrollable,
        f.feed_lines == feed_spec(*l, state.box_top_row),
        f.top_row == top_row_spec(*l, state.box_top_row),
        f.top_border@ == top_border_spec(state.current_directory@, *l),
        f.bottom_border@ == bottom_border_spec(*l),
        f.box_width == box_width_spec(*l),
        ({
            let first = first_row_spec(*l, state.scroll_offset as nat);
            let shown = shown_rows_spec(*l, first);
            &&& f.first_index == row_start_spec(first, l.columns as nat, items@.len())
            &&& f.first_index + f.cells@.len() == row_start_spec(first + shown, l.columns as nat, items@.len())
            &&& f.bottom_row == f.top_row + 1 + shown
        }),
        forall|t: int| 0 <= t < f.cells@.len() ==>
            (#[trigger] f.cells@[t])@ == cell_spec(
                items@[f.first_index + t],
                tags,
                f.first_index + t == state.selected_index,
            ),
{
    let len = items.len();
    proof {
        crate::layout::lemma_layout_wf(items@.len(), l.terminal_width, l.terminal_height);
    }
    let cols = l.columns;
    let first: usize = if l.scrollable {
        if state.scroll_offset <= l.rows { state.scroll_offset } else { l.rows }
    } else {
        0
    };
    let room: usize = if l.scrollable {
        if l.terminal_height >= BORDER_ROWS { (l.terminal_height - BORDER_ROWS) as usize } else { 0 }
    } else {
        l.rows
    };
    let left: usize = l.rows - first;
    let shown: usize = if left <= room { left } else { room };
    let first_index = row_start(first, cols, len);
    let last_index = row_start(first + shown, cols, len);
    proof {
        assert(first * cols <= (first + shown) * cols) by (nonlinear_arith)
            requires shown >= 0, cols >= 1;
    }
    let mut cells: Vec<Cell> = Vec::new();
    let mut i: usize = first_index;
    while i < last_index
        invariant
            first_index <= i <= last_index <= len,
            len == items@.len(),
            cells@.len() == i - first_index,
            forall|t: int| 0 <= t < cells@.len() ==>
                (#[trigger] cells@[t])@ == cell_spec(
                    items@[first_index + t],
                    tags,
                    first_index + t == state.selected_index,
                ),
        decreases last_index - i,
    {
        let c = cell(&items[i], tags, i == state.selected_index);
        cells.push(c);
        i = i + 1;
    }
    let start = state.box_top_row;
    let height = l.terminal_height;
    let (top_row, feed_lines) = if l.scrollable {
        (0u16, 0u16)
    } else {
        let need: usize = l.rows + BORDER_ROWS as usize;
        if start as usize + need > height as usize {
            (height - need as u16, (start as usize + need - height as usize) as u16)
        } else {
            (start, 0u16)
        }
    };
    let bottom_row: u16 = top_row + 1 + shown as u16;
    Frame {
        clear_screen: l.scrollable,
        feed_lines,
        top_row,
        top_border: top_border(&state.current_directory, l),
        first_index,
        cells,
        bottom_row,
        bottom_border: bottom_border(l),
        box_width: l.total_width as usize + cols + 1,
    }
}

} // verus!

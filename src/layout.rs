use vstd::prelude::*;

verus! {

/// Width of one grid cell, in terminal columns.
pub const CELL_WIDTH: u16 = 20;

/// Rows taken by the top and bottom border of the box.
pub const BORDER_ROWS: u16 = 2;

/// Geometry of one frame, derived from the number of items and the terminal size.
#[derive(Clone, Copy, Debug, PartialEq, Eq)]
pub struct GridLayout {
    pub cell_width: u16,
    pub columns: usize,
    pub total_width: u16,
    pub rows: usize,
    pub scrollable: bool,
    pub terminal_width: u16,
    pub terminal_height: u16,
}

/// Cells per row: one less than what the width holds, no more than the items,
/// and at least one.
pub open spec fn columns_for(item_count: nat, terminal_width: nat) -> nat {
    let fit = terminal_width / (CELL_WIDTH as nat);
    let avail: nat = if fit >= 1 { (fit - 1) as nat } else { 0 };
    let c = if item_count <= avail { item_count } else { avail };
    if c >= 1 { c } else { 1 }
}

/// Number of rows that `item_count` cells take at `columns` cells per row.
pub open spec fn rows_for(item_count: nat, columns: nat) -> nat
    recommends
        columns >= 1,
{
    if item_count % columns == 0 {
        item_count / columns
    } else {
        item_count / columns + 1
    }
}

/// The layout of `item_count` items on a terminal of the given size.
pub open spec fn layout_spec(item_count: nat, terminal_width: u16, terminal_height: u16) -> GridLayout {
    let columns = columns_for(item_count, terminal_width as nat);
    let rows = rows_for(item_count, columns);
    GridLayout {
        cell_width: CELL_WIDTH,
        columns: columns as usize,
        total_width: (columns * (CELL_WIDTH as nat)) as u16,
        rows: rows as usize,
        scrollable: rows + (BORDER_ROWS as nat) > terminal_height as nat,
        terminal_width,
        terminal_height,
    }
}

impl GridLayout {
    /// The invariant of a layout: at least one column, and the width is the
    /// columns' width.
    pub open spec fn wf(&self) -> bool {
        &&& self.cell_width == CELL_WIDTH
        &&& 1 <= self.columns
        &&& self.total_width as nat == self.columns as nat * (CELL_WIDTH as nat)
    }
}

proof fn lemma_columns_bounds(item_count: nat, terminal_width: nat)
    requires
        terminal_width <= u16::MAX,
    ensures
        1 <= columns_for(item_count, terminal_width),
        columns_for(item_count, terminal_width) <= 3276,
        item_count >= 1 ==> columns_for(item_count, terminal_width) <= item_count,
{
}

/// Computes the grid geometry of one frame.
pub fn layout(item_count: usize, terminal_width: u16, terminal_height: u16) -> (r: GridLayout)
    ensures
        r == layout_spec(item_count as nat, terminal_width, terminal_height),
        r.wf(),
{
    proof {
        lemma_columns_bounds(item_count as nat, terminal_width as nat);
    }
    let fit: u16 = terminal_width / CELL_WIDTH;
    let avail: usize = if fit >= 1 { (fit - 1) as usize } else { 0 };
    let c: usize = if item_count <= avail { item_count } else { avail };
    let columns: usize = if c >= 1 { c } else { 1 };
    let rows: usize = if item_count % columns == 0 {
        item_count / columns
    } else {
        assert(columns >= 2) by {
            if columns == 1 {
                assert(item_count % 1 == 0);
            }
        }
        assert(item_count / columns <= item_count / 2) by {
            vstd::arithmetic::div_mod::lemma_div_is_ordered_by_denominator(item_count as int, 2, columns as int);
        }
        item_count / columns + 1
    };
    let total_width: u16 = (columns as u16) * CELL_WIDTH;
    let scrollable: bool = if terminal_height < BORDER_ROWS {
        true
    } else {
        rows > (terminal_height - BORDER_ROWS) as usize
    };
    GridLayout {
        cell_width: CELL_WIDTH,
        columns,
        total_width,
        rows,
        scrollable,
        terminal_width,
        terminal_height,
    }
}

/// The specified layout is well formed, and its rows hold every item.
pub proof fn lemma_layout_wf(item_count: nat, terminal_width: u16, terminal_height: u16)
    requires
        item_count <= usize::MAX,
    ensures
        layout_spec(item_count, terminal_width, terminal_height).wf(),
        layout_spec(item_count, terminal_width, terminal_height).rows as nat
            == rows_for(item_count, columns_for(item_count, terminal_width as nat)),
{
    let c = columns_for(item_count, terminal_width as nat);
    lemma_columns_bounds(item_count, terminal_width as nat);
    lemma_rows_bound(item_count, c);
}

proof fn lemma_rows_bound(item_count: nat, columns: nat)
    requires
        columns >= 1,
    ensures
        rows_for(item_count, columns) <= item_count,
{
    let q = item_count / columns;
    let r = item_count % columns;
    vstd::arithmetic::div_mod::lemma_fundamental_div_mod(item_count as int, columns as int);
    assert(q <= item_count) by (nonlinear_arith)
        requires item_count == columns * q + r, columns >= 1, r >= 0, q >= 0;
    if r != 0 {
        assert(q + 1 <= item_count) by (nonlinear_arith)
            requires item_count == columns * q + r, columns >= 1, r >= 1, q >= 0;
    }
}

/// For a non-empty list and a terminal at least one cell wide, the grid has a
/// column and is no wider than the terminal.
pub proof fn lemma_layout_fits(item_count: nat, terminal_width: u16, terminal_height: u16)
    requires
        item_count >= 1,
        terminal_width >= CELL_WIDTH,
    ensures
        layout_spec(item_count, terminal_width, terminal_height).columns >= 1,
        layout_spec(item_count, terminal_width, terminal_height).total_width <= terminal_width,
{
    let fit = terminal_width as nat / (CELL_WIDTH as nat);
    let c = columns_for(item_count, terminal_width as nat);
    assert(fit * 20 <= terminal_width as nat);
    assert(c <= fit);
    assert(c * 20 <= fit * 20) by (nonlinear_arith)
        requires c <= fit;
}

} // verus!

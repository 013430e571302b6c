//! Terminal cell grid with per-row dirty tracking.
//!
//! The grid's dimensions are fixed at construction; updates mark the touched
//! row dirty and bump a change counter, so that a renderer can re-resolve
//! only the rows whose content changed since the previous frame.

use vstd::prelude::*;

verus! {

/// Style flag: bold.
pub const BOLD: u8 = 1 << 0;

/// Style flag: italic.
pub const ITALIC: u8 = 1 << 1;

/// Style flag: underline.
pub const UNDERLINE: u8 = 1 << 2;

/// Style flag: dim.
pub const DIM: u8 = 1 << 3;

/// Style flag: inverse video.
pub const INVERSE: u8 = 1 << 4;

/// Style flag: strikethrough.
pub const STRIKETHROUGH: u8 = 1 << 5;

/// One terminal cell: a character, palette indices for foreground and
/// background, and style flags.
#[derive(Clone, Copy, Debug, PartialEq, Eq, Structural)]
pub struct Cell {
    pub character: char,
    pub foreground: u8,
    pub background: u8,
    pub style_flags: u8,
}

/// The default cell: a space in the default colors, no styles.
pub open spec fn default_cell() -> Cell {
    Cell { character: ' ', foreground: 7, background: 0, style_flags: 0 }
}

impl Cell {
    /// A cell showing `character` in the default colors.
    pub fn new(character: char) -> (r: Self)
        ensures
            r == (Cell { character, foreground: 7, background: 0, style_flags: 0 }),
    {
        Cell { character, foreground: 7, background: 0, style_flags: 0 }
    }

    /// A fully styled cell.
    pub fn styled(character: char, foreground: u8, background: u8, style_flags: u8) -> (r: Self)
        ensures
            r == (Cell { character, foreground, background, style_flags }),
    {
        Cell { character, foreground, background, style_flags }
    }

    /// Whether the cell carries every bit of `flag`.
    pub fn has_style(&self, flag: u8) -> (r: bool)
        ensures
            r == ((self.style_flags & flag) != 0),
    {
        (self.style_flags & flag) != 0
    }

    /// Add the bits of `flag` to the cell's styles.
    pub fn add_style(&mut self, flag: u8)
        ensures
            final(self).style_flags == (old(self).style_flags | flag),
            final(self).character == old(self).character,
            final(self).foreground == old(self).foreground,
            final(self).background == old(self).background,
    {
        self.style_flags = self.style_flags | flag;
    }

    /// Remove the bits of `flag` from the cell's styles.
    pub fn remove_style(&mut self, flag: u8)
        ensures
            final(self).style_flags == (old(self).style_flags & !flag),
            final(self).character == old(self).character,
            final(self).foreground == old(self).foreground,
            final(self).background == old(self).background,
    {
        self.style_flags = self.style_flags & !flag;
    }

    /// Toggle the bits of `flag` in the cell's styles.
    pub fn toggle_style(&mut self, flag: u8)
        ensures
            final(self).style_flags == (old(self).style_flags ^ flag),
            final(self).character == old(self).character,
            final(self).foreground == old(self).foreground,
            final(self).background == old(self).background,
    {
        self.style_flags = self.style_flags ^ flag;
    }

    /// Whether the cell is the default cell: a space with default colors and
    /// no styles.
    pub fn is_empty(&self) -> (r: bool)
        ensures
            r == (*self == default_cell()),
    {
        self.character == ' ' && self.foreground == 7 && self.background == 0 && self.style_flags
            == 0
    }
}

impl Default for Cell {
    /// The default cell.
    fn default() -> (r: Self)
        ensures
            r == default_cell(),
    {
        Cell { character: ' ', foreground: 7, background: 0, style_flags: 0 }
    }
}

/// A row of `COLS` copies of one cell.
pub open spec fn repeat_row<const COLS: usize>(cell: Cell) -> Seq<Cell> {
    Seq::new(COLS as nat, |k: int| cell)
}

/// A row of `COLS` default cells.
pub open spec fn default_row<const COLS: usize>() -> Seq<Cell> {
    repeat_row::<COLS>(default_cell())
}

/// A fixed-size grid of cells with per-row dirty flags and a change counter.
pub struct CellGrid<const COLS: usize, const ROWS: usize> {
    cells: Vec<Vec<Cell>>,
    dirty_rows: Vec<bool>,
    change_count: u64,
}

impl<const COLS: usize, const ROWS: usize> CellGrid<COLS, ROWS> {
    /// The cell at `(row, col)`.
    pub closed spec fn cell_at(&self, row: int, col: int) -> Cell {
        self.cells@[row]@[col]
    }

    /// The cells of one row.
    pub closed spec fn row_at(&self, row: int) -> Seq<Cell> {
        self.cells@[row]@
    }

    /// Whether a row is marked dirty.
    pub closed spec fn row_dirty(&self, row: int) -> bool {
        self.dirty_rows@[row]
    }

    /// The change counter.
    pub closed spec fn changes(&self) -> u64 {
        self.change_count
    }

    /// Well-formedness: all rows exist and have the right width, and there
    /// is one dirty flag per row.
    pub open spec fn wf(&self) -> bool {
        &&& self.num_rows() == ROWS as int
        &&& self.num_dirty_flags() == ROWS as int
        &&& forall|r: int| 0 <= r < ROWS as int ==> self.row_at(r).len() == COLS as int
    }

    /// Number of rows actually allocated.
    pub closed spec fn num_rows(&self) -> int {
        self.cells@.len() as int
    }

    /// Number of dirty flags actually allocated.
    pub closed spec fn num_dirty_flags(&self) -> int {
        self.dirty_rows@.len() as int
    }

    /// Row `r` of `self` holds the same cells as row `r` of `other`.
    pub open spec fn row_unchanged(&self, other: &Self, r: int) -> bool {
        self.row_at(r) == other.row_at(r)
    }

    /// A grid of default cells, nothing dirty.
    pub fn new() -> (r: Self)
        ensures
            r.wf(),
            r.changes() == 0,
            forall|i: int, j: int|
                0 <= i < ROWS as int && 0 <= j < COLS as int ==> r.cell_at(i, j) == default_cell(),
            forall|i: int| 0 <= i < ROWS as int ==> !r.row_dirty(i),
    {
        let mut cells: Vec<Vec<Cell>> = Vec::new();
        let mut i: usize = 0;
        while i < ROWS
            invariant
                i <= ROWS,
                cells@.len() == i as int,
                forall|r: int| 0 <= r < i as int ==> (#[trigger] cells@[r])@ == default_row::<COLS>(),
            decreases ROWS - i,
        {
            let mut row: Vec<Cell> = Vec::new();
            let mut c: usize = 0;
            while c < COLS
                invariant
                    c <= COLS,
                    row@.len() == c as int,
                    forall|k: int| 0 <= k < c as int ==> row@[k] == default_cell(),
                decreases COLS - c,
            {
                row.push(Cell::default());
                c = c + 1;
            }
            proof {
                assert(row@ =~= default_row::<COLS>());
            }
            cells.push(row);
            i = i + 1;
        }
        let dirty_rows: Vec<bool> = vec![false; ROWS];
        let grid = CellGrid { cells, dirty_rows, change_count: 0 };
        proof {
            assert forall|r: int, c: int|
                0 <= r < ROWS as int && 0 <= c < COLS as int implies grid.cell_at(r, c)
                == default_cell() by {
                assert(grid.cells@[r]@ == default_row::<COLS>());
            }
            assert forall|r: int| 0 <= r < ROWS as int implies grid.row_at(r).len()
                == COLS as int by {
                assert(grid.cells@[r]@ == default_row::<COLS>());
            }
        }
        grid
    }

    /// Write a cell, mark its row dirty, and count the change.  Writes
    /// outside the grid are ignored.
    pub fn set_cell(&mut self, col: usize, row: usize, cell: Cell)
        requires
            old(self).wf(),
        ensures
            final(self).wf(),
            if col < COLS && row < ROWS {
                &&& final(self).cell_at(row as int, col as int) == cell
                &&& forall|r: int, c: int|
                    0 <= r < ROWS as int && 0 <= c < COLS as int && !(r == row as int && c
                        == col as int) ==> final(self).cell_at(r, c) == old(self).cell_at(r, c)
                &&& final(self).row_dirty(row as int)
                &&& forall|r: int|
                    0 <= r < ROWS as int && r != row as int ==> final(self).row_dirty(r) == old(self).row_dirty(r)
                &&& final(self).changes() == crate::pool::wrap_inc_spec(old(self).changes())
            } else {
                &&& forall|r: int, c: int|
                    0 <= r < ROWS as int && 0 <= c < COLS as int ==> final(self).cell_at(r, c)
                        == old(self).cell_at(r, c)
                &&& forall|r: int|
                    0 <= r < ROWS as int ==> final(self).row_dirty(r) == old(self).row_dirty(r)
                &&& final(self).changes() == old(self).changes()
            },
    {
        if col < COLS && row < ROWS {
            proof {
                assert(self.num_rows() == ROWS as int);
                assert(self.row_at(row as int).len() == COLS as int);
            }
            self.cells[row][col] = cell;
            self.dirty_rows[row] = true;
            self.change_count = if self.change_count == u64::MAX {
                0
            } else {
                self.change_count + 1
            };
            proof {
                assert forall|r: int, c: int|
                    0 <= r < ROWS as int && 0 <= c < COLS as int && !(r == row as int && c
                        == col as int) implies self.cell_at(r, c) == old(self).cell_at(r, c) by {
                    if r != row as int {
                        assert(self.cells@[r] == old(self).cells@[r]);
                    } else {
                        assert(self.cells@[r]@ == old(self).cells@[r]@.update(col as int, cell));
                    }
                }
                assert forall|r: int| 0 <= r < ROWS as int && r != row as int implies self
                    .row_dirty(r) == old(self).row_dirty(r) by {
                    assert(self.dirty_rows@[r] == old(self).dirty_rows@[r]);
                }
                assert forall|r: int| 0 <= r < ROWS as int implies self.row_at(r).len()
                    == COLS as int by {
                    assert(old(self).row_at(r).len() == COLS as int);
                    if r != row as int {
                        assert(self.cells@[r] == old(self).cells@[r]);
                    } else {
                        assert(self.cells@[r]@ == old(self).cells@[r]@.update(col as int, cell));
                    }
                }
            }
        }
    }

    /// Read a cell; out-of-range coordinates yield `None`.
    pub fn get_cell(&self, col: usize, row: usize) -> (r: Option<Cell>)
        requires
            self.wf(),
        ensures
            if col < COLS && row < ROWS {
                r == Some(self.cell_at(row as int, col as int))
            } else {
                r is None
            },
    {
        if col < COLS && row < ROWS {
            proof {
                assert(self.num_rows() == ROWS as int);
                assert(self.row_at(row as int).len() == COLS as int);
            }
            Some(self.cells[row][col])
        } else {
            None
        }
    }

    /// Borrow an entire row; an out-of-range index yields `None`.
    pub fn get_row(&self, row: usize) -> (r: Option<&Vec<Cell>>)
        requires
            self.wf(),
        ensures
            if row < ROWS {
                r matches Some(v) && v@ == self.row_at(row as int)
            } else {
                r is None
            },
    {
        if row < ROWS {
            Some(&self.cells[row])
        } else {
            None
        }
    }

    /// Whether `row` is in range and marked dirty.
    pub fn is_row_dirty(&self, row: usize) -> (r: bool)
        requires
            self.wf(),
        ensures
            r == (row < ROWS && self.row_dirty(row as int)),
    {
        row < ROWS && self.dirty_rows[row]
    }

    /// Mark a row dirty and count the change.  Out-of-range rows are
    /// ignored.
    pub fn mark_row_dirty(&mut self, row: usize)
        requires
            old(self).wf(),
        ensures
            final(self).wf(),
            forall|r: int, c: int|
                0 <= r < ROWS as int && 0 <= c < COLS as int ==> final(self).cell_at(r, c) == old(self).cell_at(r, c),
            if row < ROWS {
                &&& final(self).row_dirty(row as int)
                &&& forall|r: int|
                    0 <= r < ROWS as int && r != row as int ==> final(self).row_dirty(r) == old(self).row_dirty(r)
                &&& final(self).changes() == crate::pool::wrap_inc_spec(old(self).changes())
            } else {
                (forall|r: int|
                    0 <= r < ROWS as int ==> final(self).row_dirty(r) == old(self).row_dirty(r))
                    && final(self).changes() == old(self).changes()
            },
    {
        if row < ROWS {
            self.dirty_rows[row] = true;
            self.change_count = if self.change_count == u64::MAX {
                0
            } else {
                self.change_count + 1
            };
            proof {
                assert forall|r: int| 0 <= r < ROWS as int && r != row as int implies self
                    .row_dirty(r) == old(self).row_dirty(r) by {
                    assert(self.dirty_rows@[r] == old(self).dirty_rows@[r]);
                }
                assert forall|r: int| 0 <= r < ROWS as int implies self.row_at(r) == old(self).row_at(r) by {
                    assert(self.cells@[r] == old(self).cells@[r]);
                }
            }
        }
    }

    /// Clear all dirty flags.
    pub fn clear_dirty_flags(&mut self)
        requires
            old(self).wf(),
        ensures
            final(self).wf(),
            forall|r: int| 0 <= r < ROWS as int ==> !final(self).row_dirty(r),
            forall|r: int, c: int|
                0 <= r < ROWS as int && 0 <= c < COLS as int ==> final(self).cell_at(r, c) == old(self).cell_at(r, c),
            final(self).changes() == old(self).changes(),
    {
        self.dirty_rows = vec![false; ROWS];
        proof {
            assert forall|r: int| 0 <= r < ROWS as int implies self.row_at(r) == old(self).row_at(
                r,
            ) by {
                assert(self.cells@[r] == old(self).cells@[r]);
            }
        }
    }

    /// The change counter, for detecting modifications.
    pub fn change_count(&self) -> (r: u64)
        ensures
            r == self.changes(),
    {
        self.change_count
    }

    /// The grid's dimensions as `(columns, rows)`.
    pub fn dimensions(&self) -> (r: (usize, usize))
        ensures
            r.0 == COLS && r.1 == ROWS,
    {
        (COLS, ROWS)
    }

    /// Number of dirty rows among the first `n`.
    pub open spec fn dirty_prefix(&self, n: int) -> int
        decreases n,
    {
        if n <= 0 {
            0
        } else {
            self.dirty_prefix(n - 1) + if self.row_dirty(n - 1) {
                1int
            } else {
                0int
            }
        }
    }

    /// Count the dirty rows.
    pub fn dirty_row_count(&self) -> (r: usize)
        requires
            self.wf(),
        ensures
            r as int == self.dirty_prefix(ROWS as int),
    {
        let mut count: usize = 0;
        let mut i: usize = 0;
        while i < ROWS
            invariant
                self.wf(),
                i <= ROWS,
                count as int == self.dirty_prefix(i as int),
                count <= i,
            decreases ROWS - i,
        {
            if self.dirty_rows[i] {
                count = count + 1;
            }
            i = i + 1;
        }
        count
    }

    /// The indices of the dirty rows, in ascending order.
    pub fn dirty_rows_iter(&self) -> (r: Vec<usize>)
        requires
            self.wf(),
        ensures
            forall|k: int|
                0 <= k < r@.len() ==> (#[trigger] r@[k]) < ROWS && self.row_dirty(r@[k] as int),
            forall|k1: int, k2: int| 0 <= k1 < k2 < r@.len() ==> r@[k1] < r@[k2],
            forall|j: int| 0 <= j < ROWS as int && self.row_dirty(j) ==> r@.contains(j as usize),
    {
        let mut out: Vec<usize> = Vec::new();
        let mut i: usize = 0;
        while i < ROWS
            invariant
                self.wf(),
                i <= ROWS,
                forall|k: int|
                    0 <= k < out@.len() ==> (#[trigger] out@[k]) < i && self.row_dirty(
                        out@[k] as int,
                    ),
                forall|k1: int, k2: int| 0 <= k1 < k2 < out@.len() ==> out@[k1] < out@[k2],
                forall|j: int| 0 <= j < i as int && self.row_dirty(j) ==> out@.contains(j as usize),
            decreases ROWS - i,
        {
            if self.dirty_rows[i] {
                let ghost prev = out@;
                out.push(i);
                proof {
                    assert(out@[out@.len() - 1] == i);
                    assert forall|j: int|
                        0 <= j < i as int + 1 && self.row_dirty(j) implies out@.contains(
                        j as usize,
                    ) by {
                        if j < i as int {
                            let k = choose|k: int| 0 <= k < prev.len() && prev[k] == j as usize;
                            assert(out@[k] == j as usize);
                        } else {
                            assert(out@[out@.len() - 1] == j as usize);
                        }
                    }
                }
            }
            i = i + 1;
        }
        out
    }

    /// A fresh row of `COLS` copies of `cell`.
    fn filled_row(cell: Cell) -> (r: Vec<Cell>)
        ensures
            r@ == repeat_row::<COLS>(cell),
    {
        let mut row: Vec<Cell> = Vec::new();
        let mut c: usize = 0;
        while c < COLS
            invariant
                c <= COLS,
                row@.len() == c as int,
                forall|k: int| 0 <= k < c as int ==> row@[k] == cell,
            decreases COLS - c,
        {
            row.push(cell);
            c = c + 1;
        }
        proof {
            assert(row@ =~= repeat_row::<COLS>(cell));
        }
        row
    }

    /// A fresh copy of a row's cells.
    fn dup_row(src: &Vec<Cell>) -> (r: Vec<Cell>)
        ensures
            r@ == src@,
    {
        let mut row: Vec<Cell> = Vec::new();
        let mut c: usize = 0;
        while c < src.len()
            invariant
                c <= src@.len(),
                row@.len() == c as int,
                forall|k: int| 0 <= k < c as int ==> row@[k] == src@[k],
            decreases src@.len() - c,
        {
            row.push(src[c]);
            c = c + 1;
        }
        proof {
            assert(row@ =~= src@);
        }
        row
    }

    /// Fill the whole grid with one cell, marking every row dirty and
    /// counting one change.
    pub fn fill(&mut self, cell: Cell)
        requires
            old(self).wf(),
        ensures
            final(self).wf(),
            forall|r: int, c: int|
                0 <= r < ROWS as int && 0 <= c < COLS as int ==> final(self).cell_at(r, c) == cell,
            forall|r: int| 0 <= r < ROWS as int ==> final(self).row_dirty(r),
            final(self).changes() == crate::pool::wrap_inc_spec(old(self).changes()),
    {
        let mut r: usize = 0;
        while r < ROWS
            invariant
                self.num_rows() == ROWS as int,
                self.num_dirty_flags() == ROWS as int,
                r <= ROWS,
                forall|j: int| 0 <= j < r as int ==> self.row_at(j) == repeat_row::<COLS>(cell),
                forall|j: int| 0 <= j < r as int ==> self.row_dirty(j),
                forall|j: int|
                    r as int <= j < ROWS as int ==> self.row_at(j) == old(self).row_at(j),
                self.changes() == old(self).changes(),
            decreases ROWS - r,
        {
            let row = Self::filled_row(cell);
            let ghost prior = *self;
            self.cells[r] = row;
            self.dirty_rows[r] = true;
            proof {
                assert(self.row_at(r as int) == row@);
                assert forall|j: int| 0 <= j < r as int + 1 implies self.row_at(j)
                    == repeat_row::<COLS>(cell) by {
                    if j != r as int {
                        assert(self.cells@[j] == prior.cells@[j]);
                        assert(prior.row_at(j) == repeat_row::<COLS>(cell));
                    }
                }
                assert forall|j: int| 0 <= j < r as int + 1 implies self.row_dirty(j) by {
                    if j != r as int {
                        assert(self.dirty_rows@[j] == prior.dirty_rows@[j]);
                        assert(prior.row_dirty(j));
                    }
                }
                assert forall|j: int|
                    r as int + 1 <= j < ROWS as int implies self.row_at(j) == old(self).row_at(
                    j,
                ) by {
                    assert(self.cells@[j] == prior.cells@[j]);
                    assert(prior.row_at(j) == old(self).row_at(j));
                }
            }
            r = r + 1;
        }
        let ghost done = *self;
        self.change_count = if self.change_count == u64::MAX {
            0
        } else {
            self.change_count + 1
        };
        proof {
            assert forall|i: int, j: int|
                0 <= i < ROWS as int && 0 <= j < COLS as int implies self.cell_at(i, j)
                == cell by {
                assert(self.cells@[i] == done.cells@[i]);
                assert(done.row_at(i) == repeat_row::<COLS>(cell));
            }
            assert forall|i: int| 0 <= i < ROWS as int implies self.row_at(i).len()
                == COLS as int by {
                assert(self.cells@[i] == done.cells@[i]);
                assert(done.row_at(i) == repeat_row::<COLS>(cell));
            }
            assert forall|i: int| 0 <= i < ROWS as int implies self.row_dirty(i) by {
                assert(self.dirty_rows@[i] == done.dirty_rows@[i]);
                assert(done.row_dirty(i));
            }
        }
    }

    /// Clear the whole grid back to default cells, marking every row dirty
    /// and counting one change.
    pub fn clear(&mut self)
        requires
            old(self).wf(),
        ensures
            final(self).wf(),
            forall|r: int, c: int|
                0 <= r < ROWS as int && 0 <= c < COLS as int ==> final(self).cell_at(r, c)
                    == default_cell(),
            forall|r: int| 0 <= r < ROWS as int ==> final(self).row_dirty(r),
            final(self).changes() == crate::pool::wrap_inc_spec(old(self).changes()),
    {
        self.fill(Cell::default());
    }

    /// Clear one row back to default cells, marking it dirty and counting
    /// one change.  Out-of-range rows are ignored.
    pub fn clear_row(&mut self, row: usize)
        requires
            old(self).wf(),
        ensures
            final(self).wf(),
            if row < ROWS {
                &&& final(self).row_at(row as int) == default_row::<COLS>()
                &&& forall|r: int|
                    0 <= r < ROWS as int && r != row as int ==> final(self).row_unchanged(
                        old(self),
                        r,
                    )
                &&& final(self).row_dirty(row as int)
                &&& forall|r: int|
                    0 <= r < ROWS as int && r != row as int ==> final(self).row_dirty(r) == old(self).row_dirty(r)
                &&& final(self).changes() == crate::pool::wrap_inc_spec(old(self).changes())
            } else {
                &&& forall|r: int| 0 <= r < ROWS as int ==> final(self).row_unchanged(old(self), r)
                &&& forall|r: int|
                    0 <= r < ROWS as int ==> final(self).row_dirty(r) == old(self).row_dirty(r)
                &&& final(self).changes() == old(self).changes()
            },
    {
        if row < ROWS {
            let blank = Self::filled_row(Cell::default());
            self.cells[row] = blank;
            self.dirty_rows[row] = true;
            self.change_count = if self.change_count == u64::MAX {
                0
            } else {
                self.change_count + 1
            };
            proof {
                assert(self.row_at(row as int) =~= default_row::<COLS>());
                assert forall|r: int|
                    0 <= r < ROWS as int && r != row as int implies self.row_unchanged(
                    old(self),
                    r,
                ) && self.row_dirty(r) == old(self).row_dirty(r) by {
                    assert(self.cells@[r] == old(self).cells@[r]);
                    assert(self.dirty_rows@[r] == old(self).dirty_rows@[r]);
                }
                assert forall|r: int| 0 <= r < ROWS as int implies self.row_at(r).len()
                    == COLS as int by {
                    assert(old(self).row_at(r).len() == COLS as int);
                    if r != row as int {
                        assert(self.cells@[r] == old(self).cells@[r]);
                    } else {
                        assert(self.row_at(r) == default_row::<COLS>());
                    }
                }
            }
        } else {
            proof {
                assert forall|r: int| 0 <= r < ROWS as int implies self.row_unchanged(
                    old(self),
                    r,
                ) by {
                    assert(self.cells@[r] == old(self).cells@[r]);
                }
            }
        }
    }

    /// Copy the cells of `src_row` into `dst_row`, marking the destination
    /// dirty and counting one change.  Out-of-range indices and a copy onto
    /// itself are ignored.
    pub fn copy_row(&mut self, src_row: usize, dst_row: usize)
        requires
            old(self).wf(),
        ensures
            final(self).wf(),
            if src_row < ROWS && dst_row < ROWS && src_row != dst_row {
                &&& final(self).row_at(dst_row as int) == old(self).row_at(src_row as int)
                &&& forall|r: int|
                    0 <= r < ROWS as int && r != dst_row as int ==> final(self).row_unchanged(
                        old(self),
                        r,
                    )
                &&& final(self).row_dirty(dst_row as int)
                &&& forall|r: int|
                    0 <= r < ROWS as int && r != dst_row as int ==> final(self).row_dirty(r)
                        == old(self).row_dirty(r)
                &&& final(self).changes() == crate::pool::wrap_inc_spec(old(self).changes())
            } else {
                &&& forall|r: int| 0 <= r < ROWS as int ==> final(self).row_unchanged(old(self), r)
                &&& forall|r: int|
                    0 <= r < ROWS as int ==> final(self).row_dirty(r) == old(self).row_dirty(r)
                &&& final(self).changes() == old(self).changes()
            },
    {
        if src_row < ROWS && dst_row < ROWS && src_row != dst_row {
            let copied = Self::dup_row(&self.cells[src_row]);
            self.cells[dst_row] = copied;
            proof {
                assert(self.row_at(dst_row as int) == copied@);
            }
            self.dirty_rows[dst_row] = true;
            self.change_count = if self.change_count == u64::MAX {
                0
            } else {
                self.change_count + 1
            };
            proof {
                assert forall|r: int|
                    0 <= r < ROWS as int && r != dst_row as int implies self.row_unchanged(
                    old(self),
                    r,
                ) && self.row_dirty(r) == old(self).row_dirty(r) by {
                    assert(self.cells@[r] == old(self).cells@[r]);
                    assert(self.dirty_rows@[r] == old(self).dirty_rows@[r]);
                }
                assert forall|r: int| 0 <= r < ROWS as int implies self.row_at(r).len()
                    == COLS as int by {
                    assert(old(self).row_at(r).len() == COLS as int);
                    if r != dst_row as int {
                        assert(self.cells@[r] == old(self).cells@[r]);
                    } else {
                        assert(self.row_at(r) == old(self).row_at(src_row as int));
                        assert(old(self).row_at(src_row as int).len() == COLS as int);
                    }
                }
            }
        } else {
            proof {
                assert forall|r: int| 0 <= r < ROWS as int implies self.row_unchanged(
                    old(self),
                    r,
                ) by {
                    assert(self.cells@[r] == old(self).cells@[r]);
                }
            }
        }
    }

    /// Scroll the grid up by `n` rows: row `r` receives the old row `r + n`,
    /// the bottom `n` rows are cleared, every row is marked dirty, and one
    /// change is counted.  A scroll by zero or by the full height or more is
    /// ignored.
    pub fn scroll_up(&mut self, n: usize)
        requires
            old(self).wf(),
        ensures
            final(self).wf(),
            if n == 0 || n >= ROWS {
                &&& forall|r: int| 0 <= r < ROWS as int ==> final(self).row_unchanged(old(self), r)
                &&& forall|r: int|
                    0 <= r < ROWS as int ==> final(self).row_dirty(r) == old(self).row_dirty(r)
                &&& final(self).changes() == old(self).changes()
            } else {
                &&& forall|r: int|
                    0 <= r < ROWS as int - n ==> final(self).row_at(r) == old(self).row_at(r + n)
                &&& forall|r: int|
                    ROWS as int - n <= r < ROWS as int ==> final(self).row_at(r)
                        == default_row::<COLS>()
                &&& forall|r: int| 0 <= r < ROWS as int ==> final(self).row_dirty(r)
                &&& final(self).changes() == crate::pool::wrap_inc_spec(old(self).changes())
            },
    {
        if n == 0 || n >= ROWS {
            return ;
        }

        let mut r: usize = 0;
        while r < ROWS - n
            invariant
                self.num_rows() == ROWS as int,
                self.num_dirty_flags() == ROWS as int,
                0 < n < ROWS,
                r <= ROWS - n,
                forall|j: int| 0 <= j < r as int ==> self.row_at(j) == old(self).row_at(j + n),
                forall|j: int|
                    r as int <= j < ROWS as int ==> self.row_at(j) == old(self).row_at(j),
                self.changes() == old(self).changes(),
                forall|j: int|
                    0 <= j < ROWS as int ==> self.row_dirty(j) == old(self).row_dirty(j),
            decreases ROWS - n - r,
        {
            let copied = Self::dup_row(&self.cells[r + n]);
            let ghost prior = *self;
            self.cells[r] = copied;
            proof {
                assert(prior.row_at(r as int + n) == old(self).row_at(r as int + n));
                assert(self.row_at(r as int) == copied@);
                assert forall|j: int| 0 <= j < r as int + 1 implies self.row_at(j) == old(
                    self,
                ).row_at(j + n) by {
                    if j != r as int {
                        assert(self.cells@[j] == prior.cells@[j]);
                        assert(prior.row_at(j) == old(self).row_at(j + n));
                    }
                }
                assert forall|j: int|
                    r as int + 1 <= j < ROWS as int implies self.row_at(j) == old(self).row_at(
                    j,
                ) by {
                    assert(self.cells@[j] == prior.cells@[j]);
                    assert(prior.row_at(j) == old(self).row_at(j));
                }
            }
            r = r + 1;
        }

        let mut b: usize = ROWS - n;
        while b < ROWS
            invariant
                self.num_rows() == ROWS as int,
                self.num_dirty_flags() == ROWS as int,
                0 < n < ROWS,
                ROWS - n <= b <= ROWS,
                forall|j: int| 0 <= j < ROWS as int - n ==> self.row_at(j) == old(self).row_at(
                    j + n,
                ),
                forall|j: int|
                    ROWS as int - n <= j < b as int ==> self.row_at(j) == default_row::<COLS>(),
                forall|j: int|
                    b as int <= j < ROWS as int ==> self.row_at(j) == old(self).row_at(j),
                self.changes() == old(self).changes(),
            decreases ROWS - b,
        {
            let blank = Self::filled_row(Cell::default());
            let ghost prior = *self;
            self.cells[b] = blank;
            proof {
                assert(self.row_at(b as int) == blank@);
                assert(self.row_at(b as int) =~= default_row::<COLS>());
                assert forall|j: int| 0 <= j < ROWS as int - n implies self.row_at(j) == old(
                    self,
                ).row_at(j + n) by {
                    assert(self.cells@[j] == prior.cells@[j]);
                    assert(prior.row_at(j) == old(self).row_at(j + n));
                }
                assert forall|j: int|
                    ROWS as int - n <= j < b as int + 1 implies self.row_at(j)
                    == default_row::<COLS>() by {
                    if j != b as int {
                        assert(self.cells@[j] == prior.cells@[j]);
                        assert(prior.row_at(j) == default_row::<COLS>());
                    }
                }
                assert forall|j: int|
                    b as int + 1 <= j < ROWS as int implies self.row_at(j) == old(self).row_at(
                    j,
                ) by {
                    assert(self.cells@[j] == prior.cells@[j]);
                    assert(prior.row_at(j) == old(self).row_at(j));
                }
            }
            b = b + 1;
        }

        let ghost done = *self;
        self.dirty_rows = vec![true; ROWS];
        self.change_count = if self.change_count == u64::MAX {
            0
        } else {
            self.change_count + 1
        };
        proof {
            assert forall|j: int| 0 <= j < ROWS as int - n implies self.row_at(j) == old(
                self,
            ).row_at(j + n) by {
                assert(self.cells@[j] == done.cells@[j]);
                assert(done.row_at(j) == old(self).row_at(j + n));
            }
            assert forall|j: int|
                ROWS as int - n <= j < ROWS as int implies self.row_at(j)
                == default_row::<COLS>() by {
                assert(self.cells@[j] == done.cells@[j]);
                assert(done.row_at(j) == default_row::<COLS>());
            }
            assert forall|j: int| 0 <= j < ROWS as int implies self.row_at(j).len()
                == COLS as int by {
                if j < ROWS as int - n {
                    assert(self.row_at(j) == old(self).row_at(j + n));
                    assert(old(self).row_at(j + n).len() == COLS as int);
                } else {
                    assert(self.row_at(j) == default_row::<COLS>());
                }
            }
        }
    }

    /// Scroll the grid down by `n` rows: row `r` receives the old row
    /// `r - n`, the top `n` rows are cleared, every row is marked dirty, and
    /// one change is counted.  A scroll by zero or by the full height or
    /// more is ignored.
    pub fn scroll_down(&mut self, n: usize)
        requires
            old(self).wf(),
        ensures
            final(self).wf(),
            if n == 0 || n >= ROWS {
                &&& forall|r: int| 0 <= r < ROWS as int ==> final(self).row_unchanged(old(self), r)
                &&& forall|r: int|
                    0 <= r < ROWS as int ==> final(self).row_dirty(r) == old(self).row_dirty(r)
                &&& final(self).changes() == old(self).changes()
            } else {
                &&& forall|r: int|
                    n <= r < ROWS as int ==> final(self).row_at(r) == old(self).row_at(r - n)
                &&& forall|r: int| 0 <= r < n ==> final(self).row_at(r) == default_row::<COLS>()
                &&& forall|r: int| 0 <= r < ROWS as int ==> final(self).row_dirty(r)
                &&& final(self).changes() == crate::pool::wrap_inc_spec(old(self).changes())
            },
    {
        if n == 0 || n >= ROWS {
            return ;
        }

        let mut r: usize = ROWS;
        while r > n
            invariant
                self.num_rows() == ROWS as int,
                self.num_dirty_flags() == ROWS as int,
                0 < n < ROWS,
                n <= r <= ROWS,
                forall|j: int| r as int <= j < ROWS as int ==> self.row_at(j) == old(self).row_at(
                    j - n,
                ),
                forall|j: int| 0 <= j < r as int ==> self.row_at(j) == old(self).row_at(j),
                self.changes() == old(self).changes(),
                forall|j: int|
                    0 <= j < ROWS as int ==> self.row_dirty(j) == old(self).row_dirty(j),
            decreases r,
        {
            r = r - 1;
            let copied = Self::dup_row(&self.cells[r - n]);
            let ghost prior = *self;
            self.cells[r] = copied;
            proof {
                assert(prior.row_at(r as int - n) == old(self).row_at(r as int - n));
                assert(self.row_at(r as int) == copied@);
                assert forall|j: int| r as int <= j < ROWS as int implies self.row_at(j) == old(
                    self,
                ).row_at(j - n) by {
                    if j != r as int {
                        assert(self.cells@[j] == prior.cells@[j]);
                        assert(prior.row_at(j) == old(self).row_at(j - n));
                    }
                }
                assert forall|j: int| 0 <= j < r as int implies self.row_at(j) == old(
                    self,
                ).row_at(j) by {
                    assert(self.cells@[j] == prior.cells@[j]);
                    assert(prior.row_at(j) == old(self).row_at(j));
                }
            }
        }

        let mut t: usize = 0;
        while t < n
            invariant
                self.num_rows() == ROWS as int,
                self.num_dirty_flags() == ROWS as int,
                0 < n < ROWS,
                t <= n,
                forall|j: int| n <= j < ROWS as int ==> self.row_at(j) == old(self).row_at(j - n),
                forall|j: int| 0 <= j < t as int ==> self.row_at(j) == default_row::<COLS>(),
                forall|j: int| t as int <= j < n ==> self.row_at(j) == old(self).row_at(j),
                self.changes() == old(self).changes(),
            decreases n - t,
        {
            let blank = Self::filled_row(Cell::default());
            let ghost prior = *self;
            self.cells[t] = blank;
            proof {
                assert(self.row_at(t as int) == blank@);
                assert(self.row_at(t as int) =~= default_row::<COLS>());
                assert forall|j: int| n <= j < ROWS as int implies self.row_at(j) == old(
                    self,
                ).row_at(j - n) by {
                    assert(self.cells@[j] == prior.cells@[j]);
                    assert(prior.row_at(j) == old(self).row_at(j - n));
                }
                assert forall|j: int| 0 <= j < t as int + 1 implies self.row_at(j)
                    == default_row::<COLS>() by {
                    if j != t as int {
                        assert(self.cells@[j] == prior.cells@[j]);
                        assert(prior.row_at(j) == default_row::<COLS>());
                    }
                }
                assert forall|j: int| t as int + 1 <= j < n implies self.row_at(j) == old(
                    self,
                ).row_at(j) by {
                    assert(self.cells@[j] == prior.cells@[j]);
                    assert(prior.row_at(j) == old(self).row_at(j));
                }
            }
            t = t + 1;
        }

        let ghost done = *self;
        self.dirty_rows = vec![true; ROWS];
        self.change_count = if self.change_count == u64::MAX {
            0
        } else {
            self.change_count + 1
        };
        proof {
            assert forall|j: int| n <= j < ROWS as int implies self.row_at(j) == old(
                self,
            ).row_at(j - n) by {
                assert(self.cells@[j] == done.cells@[j]);
                assert(done.row_at(j) == old(self).row_at(j - n));
            }
            assert forall|j: int| 0 <= j < n implies self.row_at(j) == default_row::<COLS>() by {
                assert(self.cells@[j] == done.cells@[j]);
                assert(done.row_at(j) == default_row::<COLS>());
            }
            assert forall|j: int| 0 <= j < ROWS as int implies self.row_at(j).len()
                == COLS as int by {
                if j >= n {
                    assert(self.row_at(j) == old(self).row_at(j - n));
                    assert(old(self).row_at(j - n).len() == COLS as int);
                } else {
                    assert(self.row_at(j) == default_row::<COLS>());
                }
            }
        }
    }
}

impl<const COLS: usize, const ROWS: usize> Default for CellGrid<COLS, ROWS> {
    /// A grid of default cells, nothing dirty.
    fn default() -> (r: Self)
        ensures
            r.wf(),
            r.changes() == 0,
            forall|i: int, j: int|
                0 <= i < ROWS as int && 0 <= j < COLS as int ==> r.cell_at(i, j) == default_cell(),
            forall|i: int| 0 <= i < ROWS as int ==> !r.row_dirty(i),
    {
        Self::new()
    }
}

} // verus!

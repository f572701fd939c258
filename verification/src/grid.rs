//! A grid of the screen: its id and its model, and the grid events that
//! neovim sends for it.
use vstd::prelude::*;

use crate::highlight::{plain_highlight, Highlight, HighlightMap};
use crate::model_rect::{spec_vec_join, ModelRect, ModelRectVec};
use crate::ui_model::{cleared_cell, scrolled_cell, CellView, UiModel};
use crate::value::Value;

verus! {

/// The entries of a `grid_line` event as sequences of values.
pub open spec fn entries_view(cells: Seq<Vec<Value>>) -> Seq<Seq<Value>> {
    cells.map_values(|v: Vec<Value>| v@)
}

/// The text of a cell entry of a `grid_line` event: its first element where
/// that is a string, else nothing.
pub open spec fn entry_char(cell: Seq<Value>) -> Seq<char> {
    match cell[0].spec_as_str() {
        Some(s) => s,
        None => Seq::empty(),
    }
}

/// How many cells an entry fills: its third element where that is an
/// unsigned integer, else one.
pub open spec fn entry_repeat(cell: Seq<Value>) -> int {
    if cell.len() > 2 && cell[2].spec_as_u64() is Some {
        cell[2].spec_as_u64()->0 as int
    } else {
        1
    }
}

/// The highlight id in force at entry `k`: the last one given at `k` or before.
pub open spec fn entry_hl(cells: Seq<Seq<Value>>, k: int) -> Option<u64>
    decreases k + 1,
{
    if k < 0 {
        None
    } else if cells[k].len() > 1 && cells[k][1].spec_as_u64() is Some {
        cells[k][1].spec_as_u64()
    } else {
        entry_hl(cells, k - 1)
    }
}

/// The column where entry `k` starts.
pub open spec fn entry_start(cells: Seq<Seq<Value>>, col_start: int, k: int) -> int
    decreases k,
{
    if k <= 0 {
        col_start
    } else {
        entry_start(cells, col_start, k - 1) + entry_repeat(cells[k - 1])
    }
}

/// The cell at column `c` of a row after the first `n` entries of a line are
/// written from `col_start` on, where it was `base` before.
pub open spec fn line_cell(
    cells: Seq<Seq<Value>>,
    n: int,
    col_start: int,
    hls: HighlightMap,
    c: int,
    base: CellView,
) -> CellView
    decreases n,
{
    if n <= 0 {
        base
    } else if entry_start(cells, col_start, n - 1) <= c < entry_start(cells, col_start, n) {
        CellView {
            hl: hls.spec_get(entry_hl(cells, n - 1)),
            ch: entry_char(cells[n - 1]),
            dirty: base.dirty,
            double_width: entry_char(cells[n - 1]).len() == 0,
        }
    } else {
        line_cell(cells, n - 1, col_start, hls, c, base)
    }
}

/// The entries of a line can be written: each has its text, and they fit in
/// the row.
pub open spec fn line_fits(cells: Seq<Seq<Value>>, col_start: int, columns: int) -> bool {
    &&& forall|k: int| 0 <= k < cells.len() ==> (#[trigger] cells[k]).len() > 0
    &&& forall|k: int| 0 <= k <= cells.len() ==> col_start <= #[trigger] entry_start(cells, col_start, k) <= columns
}

/// A grid: its id and its model.
pub struct Grid {
    pub grid: u64,
    pub model: UiModel,
}

impl Grid {
    pub open spec fn spec_id(&self) -> u64 {
        self.grid
    }

    pub fn new(grid: u64) -> (g: Self)
        ensures
            g.spec_id() == grid,
            g.model.well_formed(),
            g.model.rows == 0,
            g.model.columns == 0,
            g.model.cur_row == 0,
            g.model.cur_col == 0,
    {
        Grid { grid, model: UiModel::empty() }
    }

    pub fn id(&self) -> (id: u64)
        ensures
            id == self.spec_id(),
    {
        self.grid
    }

    pub fn get_cursor(&self) -> (r: (usize, usize))
        ensures
            r == (self.model.cur_row, self.model.cur_col),
    {
        self.model.get_cursor()
    }

    pub fn cur_point(&self) -> (r: ModelRect)
        ensures
            r == (ModelRect { top: self.model.cur_row, bot: self.model.cur_row, left: self.model.cur_col, right: self.model.cur_col }),
    {
        self.model.cur_point()
    }

    /// Gives the grid `rows` rows of `columns` cells: a new, cleared model
    /// where the size changes, the model as it was otherwise.
    pub fn resize(&mut self, columns: u64, rows: u64)
        requires
            old(self).model.well_formed(),
            columns <= usize::MAX,
            rows <= usize::MAX,
        ensures
            final(self).spec_id() == old(self).spec_id(),
            final(self).model.well_formed(),
            final(self).model.rows == rows,
            final(self).model.columns == columns,
            old(self).model.rows == rows && old(self).model.columns == columns ==> final(self).model == old(self).model,
            !(old(self).model.rows == rows && old(self).model.columns == columns) ==> {
                &&& final(self).model.cur_row == 0
                &&& final(self).model.cur_col == 0
                &&& forall|r: int, c: int| 0 <= r < rows && 0 <= c < columns ==> #[trigger] final(self).model.cell(r, c)
                    == cleared_cell(plain_highlight())
            },
    {
        if self.model.columns != columns as usize || self.model.rows != rows as usize {
            self.model = UiModel::new(rows, columns);
        }
    }

    /// Moves the cursor; gives the cells to repaint.
    pub fn cursor_goto(&mut self, row: usize, col: usize) -> (changed: ModelRectVec)
        requires
            old(self).model.well_formed(),
        ensures
            final(self).spec_id() == old(self).spec_id(),
            final(self).model.well_formed(),
            final(self).model.model == old(self).model.model,
            final(self).model.rows == old(self).model.rows,
            final(self).model.columns == old(self).model.columns,
            row >= old(self).model.rows || col >= old(self).model.columns ==> {
                &&& changed.list@ == Seq::<ModelRect>::empty()
                &&& final(self).model.cur_row == old(self).model.cur_row
                &&& final(self).model.cur_col == old(self).model.cur_col
            },
            row < old(self).model.rows && col < old(self).model.columns ==> {
                &&& final(self).model.cur_row == row
                &&& final(self).model.cur_col == col
                &&& changed.list@ == spec_vec_join(
                    seq![
                        ModelRect {
                            top: old(self).model.cur_row,
                            bot: old(self).model.cur_row,
                            left: old(self).model.cur_col,
                            right: old(self).model.cur_col,
                        },
                    ],
                    ModelRect { top: row, bot: row, left: col, right: col },
                )
            },
    {
        self.model.set_cursor(row, col)
    }

    /// Clears the grid to the default highlight, as `UiModel::clear` does:
    /// every row but the last.
    pub fn clear(&mut self, default_hl: Highlight)
        requires
            old(self).model.well_formed(),
            old(self).model.rows > 0,
            old(self).model.columns > 0,
        ensures
            final(self).spec_id() == old(self).spec_id(),
            final(self).model.well_formed(),
            final(self).model.rows == old(self).model.rows,
            final(self).model.columns == old(self).model.columns,
            final(self).model.cur_row == old(self).model.cur_row,
            final(self).model.cur_col == old(self).model.cur_col,
            forall|r: int, c: int| 0 <= r < old(self).model.rows && 0 <= c < old(self).model.columns ==> #[trigger] final(self).model.cell(r, c)
                == (if r < old(self).model.rows - 1 { cleared_cell(default_hl) } else { old(self).model.cell(r, c) }),
    {
        self.model.clear(default_hl);
    }

    /// Whether `line` can write these entries into row `row` from column
    /// `col_start` on (what `line` asks of its caller).
    pub fn line_is_writable(&self, row: usize, col_start: usize, cells: &Vec<Vec<Value>>) -> (r: bool)
        requires
            self.model.well_formed(),
        ensures
            r == (row < self.model.rows && line_fits(entries_view(cells@), col_start as int, self.model.columns as int)
                && entry_start(entries_view(cells@), col_start as int, cells@.len() as int) > 0),
    {
        let ghost cv = entries_view(cells@);
        let columns = self.model.columns;
        if row >= self.model.rows || col_start > columns {
            proof {
                if row < self.model.rows {
                    assert(entry_start(cv, col_start as int, 0) == col_start);
                }
            }
            return false;
        }
        let mut start = col_start;
        let mut k: usize = 0;
        while k < cells.len()
            invariant
                cv == entries_view(cells@),
                cv.len() == cells@.len(),
                k <= cells@.len(),
                columns == self.model.columns,
                start == entry_start(cv, col_start as int, k as int),
                col_start <= start <= columns,
                forall|j: int| 0 <= j < k ==> (#[trigger] cv[j]).len() > 0,
                forall|j: int| 0 <= j <= k ==> col_start <= #[trigger] entry_start(cv, col_start as int, j) <= columns,
            decreases cells@.len() - k,
        {
            let cell = &cells[k];
            proof {
                assert(cv[k as int] == cell@);
            }
            if cell.len() == 0 {
                return false;
            }
            let repeat: u64 = if cell.len() > 2 {
                match cell[2].as_u64() {
                    Some(r) => r,
                    None => 1,
                }
            } else {
                1
            };
            proof {
                assert(repeat == entry_repeat(cv[k as int]));
            }
            if repeat > (columns - start) as u64 {
                proof {
                    assert(entry_start(cv, col_start as int, k + 1) > columns);
                }
                return false;
            }
            start = start + repeat as usize;
            k = k + 1;
        }
        start > 0
    }

    /// Writes the entries of a `grid_line` event into row `row` from column
    /// `col_start` on: each entry is its text, optionally a highlight id
    /// (which stays in force for the entries after it) and optionally a repeat
    /// count. Gives the span of the row that was written.
    pub fn line(&mut self, row: usize, col_start: usize, cells: &Vec<Vec<Value>>, highlights: &HighlightMap) -> (area: ModelRect)
        requires
            old(self).model.well_formed(),
            row < old(self).model.rows,
            line_fits(entries_view(cells@), col_start as int, old(self).model.columns as int),
            entry_start(entries_view(cells@), col_start as int, cells@.len() as int) > 0,
        ensures
            final(self).spec_id() == old(self).spec_id(),
            final(self).model.well_formed(),
            final(self).model.rows == old(self).model.rows,
            final(self).model.columns == old(self).model.columns,
            final(self).model.cur_row == old(self).model.cur_row,
            final(self).model.cur_col == old(self).model.cur_col,
            forall|r: int| 0 <= r < old(self).model.rows && r != row ==> #[trigger] final(self).model.model@[r]
                == old(self).model.model@[r],
            forall|c: int| 0 <= c < old(self).model.columns ==> #[trigger] final(self).model.cell(row as int, c)
                == line_cell(
                entries_view(cells@),
                cells@.len() as int,
                col_start as int,
                *highlights,
                c,
                old(self).model.cell(row as int, c),
            ),
            area == (ModelRect {
                top: row,
                bot: row,
                left: col_start,
                right: (entry_start(entries_view(cells@), col_start as int, cells@.len() as int) - 1) as usize,
            }),
    {
        let ghost cv = entries_view(cells@);
        let mut hl_id: Option<u64> = None;
        let mut col_end = col_start;
        let mut k: usize = 0;
        while k < cells.len()
            invariant
                cv == entries_view(cells@),
                cv.len() == cells@.len(),
                entry_start(cv, col_start as int, cv.len() as int) > 0,
                k <= cells@.len(),
                self.model.well_formed(),
                self.grid == old(self).grid,
                self.model.rows == old(self).model.rows,
                self.model.columns == old(self).model.columns,
                self.model.cur_row == old(self).model.cur_row,
                self.model.cur_col == old(self).model.cur_col,
                row < self.model.rows,
                line_fits(cv, col_start as int, self.model.columns as int),
                col_end == entry_start(cv, col_start as int, k as int),
                hl_id == entry_hl(cv, k - 1),
                forall|r: int| 0 <= r < old(self).model.rows && r != row ==> #[trigger] self.model.model@[r]
                    == old(self).model.model@[r],
                forall|c: int| 0 <= c < old(self).model.columns ==> #[trigger] self.model.cell(row as int, c)
                    == line_cell(cv, k as int, col_start as int, *highlights, c, old(self).model.cell(row as int, c)),
            decreases cells@.len() - k,
        {
            let cell = &cells[k];
            proof {
                assert(cv[k as int] == cell@);
                assert(cv[k as int].len() > 0);
                assert(col_start <= entry_start(cv, col_start as int, k + 1) <= self.model.columns);
            }
            let ch: &str = match cell[0].as_str() {
                Some(s) => s,
                None => {
                    proof {
                        reveal_strlit("");
                    }
                    ""
                },
            };
            if cell.len() > 1 {
                match cell[1].as_u64() {
                    Some(h) => {
                        hl_id = Some(h);
                    },
                    None => {},
                }
            }
            let repeat: usize = if cell.len() > 2 {
                match cell[2].as_u64() {
                    Some(r) => r as usize,
                    None => 1,
                }
            } else {
                1
            };
            proof {
                assert(ch@ == entry_char(cv[k as int]));
                assert(repeat == entry_repeat(cv[k as int]));
                assert(hl_id == entry_hl(cv, k as int));
            }
            let hl = highlights.get(hl_id);
            let ghost before = *self;
            self.model.put(row, col_end, ch, ch.unicode_len() == 0, repeat, hl);
            proof {
                assert forall|c: int| 0 <= c < old(self).model.columns implies #[trigger] self.model.cell(row as int, c)
                    == line_cell(cv, k + 1, col_start as int, *highlights, c, old(self).model.cell(row as int, c)) by {
                    assert(before.model.cell(row as int, c) == line_cell(cv, k as int, col_start as int, *highlights, c, old(self).model.cell(row as int, c)));
                    lemma_line_cell_dirty(cv, k as int, col_start as int, *highlights, c, old(self).model.cell(row as int, c));
                }
            }
            col_end = col_end + repeat;
            k = k + 1;
        }
        ModelRect::new(row, row, col_start, col_end - 1)
    }

    /// Scrolls the region `top..bot` x `left..right` (ends excluded) by `rows`
    /// rows; gives the region.
    pub fn scroll(
        &mut self,
        top: u64,
        bot: u64,
        left: u64,
        right: u64,
        rows: i64,
        cols: i64,
        default_hl: Highlight,
    ) -> (area: ModelRect)
        requires
            old(self).model.well_formed(),
            top <= i64::MAX,
            1 <= bot <= i64::MAX,
            bot - 1 <= old(self).model.rows,
            left < right <= old(self).model.columns,
            rows != 0,
            rows > 0 ==> rows <= bot,
            rows < 0 ==> top - rows - 1 <= old(self).model.rows && top - rows <= i64::MAX,
        ensures
            final(self).spec_id() == old(self).spec_id(),
            final(self).model.well_formed(),
            final(self).model.rows == old(self).model.rows,
            final(self).model.columns == old(self).model.columns,
            final(self).model.cur_row == old(self).model.cur_row,
            final(self).model.cur_col == old(self).model.cur_col,
            area == (ModelRect { top: top as usize, bot: (bot - 1) as usize, left: left as usize, right: (right - 1) as usize }),
            forall|r: int, c: int| 0 <= r < old(self).model.rows && 0 <= c < old(self).model.columns ==> #[trigger] final(self).model.cell(r, c)
                == scrolled_cell(old(self).model, top as int, bot - 1, left as int, right - 1, rows as int, default_hl, r, c),
    {
        self.model.scroll(top as i64, bot as i64 - 1, left as usize, right as usize - 1, rows, default_hl)
    }
}

/// Writing entries keeps the `dirty` mark that a cell had.
proof fn lemma_line_cell_dirty(cells: Seq<Seq<Value>>, n: int, col_start: int, hls: HighlightMap, c: int, base: CellView)
    ensures
        line_cell(cells, n, col_start, hls, c, base).dirty == base.dirty,
    decreases n,
{
    if n > 0 {
        lemma_line_cell_dirty(cells, n - 1, col_start, hls, c, base);
    }
}


/// Entries start no earlier than the entries before them.
proof fn lemma_entry_start_monotone(cells: Seq<Seq<Value>>, col_start: int, j: int, k: int)
    requires
        0 <= j <= k,
    ensures
        entry_start(cells, col_start, j) <= entry_start(cells, col_start, k),
    decreases k - j,
{
    if j < k {
        lemma_entry_start_monotone(cells, col_start, j, k - 1);
        assert(entry_repeat(cells[k - 1]) >= 0);
    }
}

/// After a line is written, each cell that an entry covers holds the entry's
/// text, in the highlight in force for it, and is double width exactly when
/// the text is empty.
pub proof fn law_line_reads_back(
    cells: Seq<Seq<Value>>,
    n: int,
    col_start: int,
    hls: HighlightMap,
    c: int,
    base: CellView,
    k: int,
)
    requires
        0 <= k < n,
        entry_start(cells, col_start, k) <= c < entry_start(cells, col_start, k + 1),
    ensures
        line_cell(cells, n, col_start, hls, c, base).ch == entry_char(cells[k]),
        line_cell(cells, n, col_start, hls, c, base).hl == hls.spec_get(entry_hl(cells, k)),
        line_cell(cells, n, col_start, hls, c, base).double_width == (entry_char(cells[k]).len() == 0),
    decreases n,
{
    if n - 1 > k {
        lemma_entry_start_monotone(cells, col_start, k + 1, n - 1);
        law_line_reads_back(cells, n - 1, col_start, hls, c, base, k);
    }
}

/// Writing a line leaves the cells outside its span as they were.
pub proof fn law_line_keeps_other_cells(
    cells: Seq<Seq<Value>>,
    n: int,
    col_start: int,
    hls: HighlightMap,
    c: int,
    base: CellView,
)
    requires
        0 <= n,
        c < col_start || c >= entry_start(cells, col_start, n),
    ensures
        line_cell(cells, n, col_start, hls, c, base) == base,
    decreases n,
{
    if n > 0 {
        lemma_entry_start_monotone(cells, col_start, 0, n - 1);
        lemma_entry_start_monotone(cells, col_start, n - 1, n);
        law_line_keeps_other_cells(cells, n - 1, col_start, hls, c, base);
    }
}

/// The highlight of the cells a line entry writes: the highlight of the id
/// the entry gives, where it gives one; else that of the entry before it in
/// the same line (the id carries over); else, for a first entry, the
/// highlight for no id.
pub proof fn law_line_highlight_carries_over(
    cells: Seq<Seq<Value>>,
    n: int,
    col_start: int,
    hls: HighlightMap,
    base: CellView,
    k: int,
    c: int,
    c_prev: int,
)
    requires
        0 <= k < n,
        entry_start(cells, col_start, k) <= c < entry_start(cells, col_start, k + 1),
    ensures
        (cells[k].len() > 1 && cells[k][1].spec_as_u64() is Some) ==> line_cell(cells, n, col_start, hls, c, base).hl
            == hls.spec_get(Some(cells[k][1].spec_as_u64()->0)),
        !(cells[k].len() > 1 && cells[k][1].spec_as_u64() is Some) && k == 0 ==> line_cell(cells, n, col_start, hls, c, base).hl
            == hls.spec_get(None),
        !(cells[k].len() > 1 && cells[k][1].spec_as_u64() is Some) && k > 0 && entry_start(cells, col_start, k - 1) <= c_prev
            < entry_start(cells, col_start, k) ==> line_cell(cells, n, col_start, hls, c, base).hl == line_cell(
            cells,
            n,
            col_start,
            hls,
            c_prev,
            base,
        ).hl,
{
    law_line_reads_back(cells, n, col_start, hls, c, base, k);
    assert(entry_hl(cells, -1) is None);
    if k > 0 && entry_start(cells, col_start, k - 1) <= c_prev < entry_start(cells, col_start, k) {
        law_line_reads_back(cells, n, col_start, hls, c_prev, base, k - 1);
    }
}

} // verus!

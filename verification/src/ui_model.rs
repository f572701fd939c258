//! The screen model of a grid: rows of cells, each with its text and highlight.
use vstd::prelude::*;

use crate::highlight::{plain_highlight, Highlight};
use crate::model_rect::{spec_vec_join, ModelRect, ModelRectVec};
use crate::text::string_from;

verus! {

/// One cell of the grid.
pub struct Cell {
    pub hl: Highlight,
    pub ch: String,
    pub dirty: bool,
    pub double_width: bool,
}

/// The mathematical value of a cell.
pub struct CellView {
    pub hl: Highlight,
    pub ch: Seq<char>,
    pub dirty: bool,
    pub double_width: bool,
}

impl View for Cell {
    type V = CellView;

    open spec fn view(&self) -> CellView {
        CellView { hl: self.hl, ch: self.ch@, dirty: self.dirty, double_width: self.double_width }
    }
}

/// A cell that shows nothing, in highlight `hl`, to be redrawn.
pub open spec fn cleared_cell(hl: Highlight) -> CellView {
    CellView { hl, ch: Seq::empty(), dirty: true, double_width: false }
}

impl Cell {
    pub fn new_empty() -> (c: Cell)
        ensures
            c@ == cleared_cell(plain_highlight()),
    {
        Cell { hl: Highlight::new(), ch: String::new(), dirty: true, double_width: false }
    }

    /// A cell with the same content.
    pub fn duplicate(&self) -> (c: Cell)
        ensures
            c@ == self@,
    {
        Cell { hl: self.hl, ch: self.ch.clone(), dirty: self.dirty, double_width: self.double_width }
    }

    pub fn clear(&mut self, hl: Highlight)
        ensures
            final(self)@ == cleared_cell(hl),
    {
        self.ch = String::new();
        self.hl = hl;
        self.dirty = true;
        self.double_width = false;
    }
}

/// One row of the grid.
pub struct Line {
    pub line: Vec<Cell>,
    pub dirty_line: bool,
}

impl Line {
    pub open spec fn cells(&self) -> Seq<CellView> {
        self.line@.map_values(|c: Cell| c@)
    }

    pub fn new(columns: usize) -> (l: Line)
        ensures
            l.line@.len() == columns,
            forall|i: int| 0 <= i < columns ==> (#[trigger] l.line@[i])@ == cleared_cell(plain_highlight()),
            l.dirty_line,
    {
        let mut line: Vec<Cell> = Vec::new();
        let mut i: usize = 0;
        while i < columns
            invariant
                i <= columns,
                line@.len() == i,
                forall|j: int| 0 <= j < i ==> (#[trigger] line@[j])@ == cleared_cell(plain_highlight()),
            decreases columns - i,
        {
            line.push(Cell::new_empty());
            i = i + 1;
        }
        Line { line, dirty_line: true }
    }

    /// Clears the cells `left..=right` to highlight `hl` and marks the row changed.
    pub fn clear(&mut self, left: usize, right: usize, hl: Highlight)
        requires
            left <= right < old(self).line@.len(),
        ensures
            final(self).line@.len() == old(self).line@.len(),
            forall|i: int| 0 <= i < old(self).line@.len() ==> (#[trigger] final(self).line@[i])@ == (
                if left <= i <= right { cleared_cell(hl) } else { old(self).line@[i]@ }),
            final(self).dirty_line,
    {
        let mut i = left;
        assert(self.line@.len() == self.line.len());
        while i <= right
            invariant
                left <= i <= right + 1,
                right < self.line@.len(),
                right < usize::MAX,
                self.line@.len() == old(self).line@.len(),
                forall|j: int| 0 <= j < old(self).line@.len() ==> (#[trigger] self.line@[j])@ == (
                    if left <= j < i { cleared_cell(hl) } else { old(self).line@[j]@ }),
            decreases right + 1 - i,
        {
            self.line[i].clear(hl);
            i = i + 1;
        }
        self.dirty_line = true;
    }
}

/// The grid: `rows` rows of `columns` cells, and the cursor.
pub struct UiModel {
    pub columns: usize,
    pub rows: usize,
    pub cur_row: usize,
    pub cur_col: usize,
    pub model: Vec<Line>,
}

impl UiModel {
    /// Every row has `columns` cells, there are `rows` rows, and the cursor
    /// can be moved one cell on without overflow.
    pub open spec fn well_formed(&self) -> bool {
        &&& self.model@.len() == self.rows
        &&& forall|r: int| 0 <= r < self.rows ==> (#[trigger] self.model@[r]).line@.len() == self.columns
        &&& self.cur_row < usize::MAX
        &&& self.cur_col < usize::MAX
    }

    /// The cell at `row`, `col`.
    pub open spec fn cell(&self, row: int, col: int) -> CellView {
        self.model@[row].line@[col]@
    }

    pub fn new(rows: u64, columns: u64) -> (m: UiModel)
        requires
            rows <= usize::MAX,
            columns <= usize::MAX,
        ensures
            m.well_formed(),
            m.rows == rows,
            m.columns == columns,
            m.cur_row == 0,
            m.cur_col == 0,
            forall|r: int, c: int| 0 <= r < rows && 0 <= c < columns ==> #[trigger] m.cell(r, c)
                == cleared_cell(plain_highlight()),
    {
        let rows = rows as usize;
        let columns = columns as usize;
        let mut model: Vec<Line> = Vec::new();
        let mut i: usize = 0;
        while i < rows
            invariant
                i <= rows,
                model@.len() == i,
                forall|r: int| 0 <= r < i ==> (#[trigger] model@[r]).line@.len() == columns,
                forall|r: int, c: int| 0 <= r < i && 0 <= c < columns ==> (#[trigger] model@[r].line@[c])@
                    == cleared_cell(plain_highlight()),
            decreases rows - i,
        {
            model.push(Line::new(columns));
            i = i + 1;
        }
        UiModel { columns, rows, cur_row: 0, cur_col: 0, model }
    }

    pub fn empty() -> (m: UiModel)
        ensures
            m.well_formed(),
            m.rows == 0,
            m.columns == 0,
            m.cur_row == 0,
            m.cur_col == 0,
    {
        UiModel { columns: 0, rows: 0, cur_row: 0, cur_col: 0, model: Vec::new() }
    }

    /// The cursor cell as a rectangle.
    pub fn cur_point(&self) -> (r: ModelRect)
        ensures
            r == (ModelRect { top: self.cur_row, bot: self.cur_row, left: self.cur_col, right: self.cur_col }),
    {
        ModelRect::point(self.cur_col, self.cur_row)
    }

    /// Moves the cursor and gives the cells to repaint: the old and the new
    /// cursor cell. A position outside the grid is ignored.
    pub fn set_cursor(&mut self, row: usize, col: usize) -> (changed: ModelRectVec)
        requires
            old(self).well_formed(),
        ensures
            final(self).well_formed(),
            final(self).model == old(self).model,
            final(self).rows == old(self).rows,
            final(self).columns == old(self).columns,
            row >= old(self).rows || col >= old(self).columns ==> {
                &&& changed.list@ == Seq::<ModelRect>::empty()
                &&& final(self).cur_row == old(self).cur_row
                &&& final(self).cur_col == old(self).cur_col
            },
            row < old(self).rows && col < old(self).columns ==> {
                &&& final(self).cur_row == row
                &&& final(self).cur_col == col
                &&& changed.list@ == spec_vec_join(
                    seq![ModelRect { top: old(self).cur_row, bot: old(self).cur_row, left: old(self).cur_col, right: old(self).cur_col }],
                    ModelRect { top: row, bot: row, left: col, right: col },
                )
            },
    {
        if row >= self.model.len() || col >= self.model[row].line.len() {
            return ModelRectVec::empty();
        }
        let mut changed_region = ModelRectVec::new(self.cur_point());
        self.cur_row = row;
        self.cur_col = col;
        changed_region.join(&self.cur_point());
        changed_region
    }

    pub fn get_cursor(&self) -> (r: (usize, usize))
        ensures
            r == (self.cur_row, self.cur_col),
    {
        (self.cur_row, self.cur_col)
    }

    /// Writes `ch` into `repeat` cells from `col` on, in row `row`.
    pub fn put(&mut self, row: usize, col: usize, ch: &str, double_width: bool, repeat: usize, hl: Highlight)
        requires
            old(self).well_formed(),
            row < old(self).rows,
            col + repeat <= old(self).columns,
        ensures
            final(self).well_formed(),
            final(self).rows == old(self).rows,
            final(self).columns == old(self).columns,
            final(self).cur_row == old(self).cur_row,
            final(self).cur_col == old(self).cur_col,
            final(self).model@[row as int].dirty_line,
            forall|r: int| 0 <= r < old(self).rows && r != row ==> #[trigger] final(self).model@[r] == old(self).model@[r],
            forall|c: int| 0 <= c < old(self).columns ==> #[trigger] final(self).cell(row as int, c) == (
                if col <= c < col + repeat {
                    CellView { hl, ch: ch@, dirty: old(self).cell(row as int, c).dirty, double_width }
                } else {
                    old(self).cell(row as int, c)
                }),
    {
        self.model[row].dirty_line = true;
        let mut offset: usize = 0;
        while offset < repeat
            invariant
                offset <= repeat,
                row < self.rows,
                col + repeat <= self.columns,
                self.rows == old(self).rows,
                self.columns == old(self).columns,
                self.cur_row == old(self).cur_row,
                self.cur_col == old(self).cur_col,
                self.model@.len() == old(self).model@.len(),
                self.model@[row as int].dirty_line,
                old(self).well_formed(),
                forall|r: int| 0 <= r < old(self).rows && r != row ==> #[trigger] self.model@[r] == old(self).model@[r],
                self.model@[row as int].line@.len() == self.columns,
                forall|c: int| 0 <= c < old(self).columns ==> #[trigger] self.cell(row as int, c) == (
                    if col <= c < col + offset {
                        CellView { hl, ch: ch@, dirty: old(self).cell(row as int, c).dirty, double_width }
                    } else {
                        old(self).cell(row as int, c)
                    }),
            decreases repeat - offset,
        {
            let idx = col + offset;
            let dirty = self.model[row].line[idx].dirty;
            assert(self.cell(row as int, idx as int) == old(self).cell(row as int, idx as int));
            let ghost before = self.model@[row as int].line@;
            assert forall|c: int| 0 <= c < old(self).columns implies (#[trigger] before[c])@ == (
                    if col <= c < col + offset {
                        CellView { hl, ch: ch@, dirty: old(self).cell(row as int, c).dirty, double_width }
                    } else {
                        old(self).cell(row as int, c)
                    }) by {
                assert(self.cell(row as int, c) == before[c]@);
            }
            let s = string_from(ch);
            let new_cell = Cell { hl, ch: s, dirty, double_width };
            assert(new_cell@ == CellView { hl, ch: ch@, dirty: old(self).cell(row as int, idx as int).dirty, double_width });
            self.model[row].line.set(idx, new_cell);
            assert(self.model@[row as int].line@ == before.update(idx as int, new_cell));
            offset = offset + 1;
            assert forall|c: int| 0 <= c < old(self).columns implies #[trigger] self.cell(row as int, c) == (
                    if col <= c < col + offset {
                        CellView { hl, ch: ch@, dirty: old(self).cell(row as int, c).dirty, double_width }
                    } else {
                        old(self).cell(row as int, c)
                    }) by {
                if c != idx {
                    assert(self.model@[row as int].line@[c] == before[c]);
                    assert(self.cell(row as int, c) == before[c]@);
                }
            }
        }
    }

    /// Writes one cell, in highlight `hl` or the plain one.
    pub fn put_one(&mut self, row: usize, col: usize, ch: &str, double_width: bool, hl: Option<&Highlight>)
        requires
            old(self).well_formed(),
            row < old(self).rows,
            col < old(self).columns,
        ensures
            final(self).well_formed(),
            final(self).rows == old(self).rows,
            final(self).columns == old(self).columns,
            final(self).cur_row == old(self).cur_row,
            final(self).cur_col == old(self).cur_col,
            forall|r: int| 0 <= r < old(self).rows && r != row ==> #[trigger] final(self).model@[r] == old(self).model@[r],
            forall|c: int| 0 <= c < old(self).columns ==> #[trigger] final(self).cell(row as int, c) == (
                if c == col {
                    CellView {
                        hl: match hl { Some(h) => *h, None => plain_highlight() },
                        ch: ch@,
                        dirty: old(self).cell(row as int, c).dirty,
                        double_width,
                    }
                } else {
                    old(self).cell(row as int, c)
                }),
    {
        let hl = match hl {
            Some(h) => *h,
            None => Highlight::new(),
        };
        self.put(row, col, ch, double_width, 1, hl);
    }

    /// Swaps the rows `0..=to_row` of this model, all its columns, with the
    /// same cells of `target`; the rows of both are marked changed.
    pub fn swap_rows(&mut self, target: &mut UiModel, to_row: usize)
        requires
            old(self).well_formed(),
            old(target).well_formed(),
            to_row < old(self).rows,
            to_row < old(target).rows,
            0 < old(self).columns <= old(target).columns,
        ensures
            final(self).well_formed(),
            final(target).well_formed(),
            final(self).rows == old(self).rows,
            final(self).columns == old(self).columns,
            final(self).cur_row == old(self).cur_row,
            final(self).cur_col == old(self).cur_col,
            final(target).rows == old(target).rows,
            final(target).columns == old(target).columns,
            final(target).cur_row == old(target).cur_row,
            final(target).cur_col == old(target).cur_col,
            forall|r: int| 0 <= r <= to_row ==> (#[trigger] final(self).model@[r]).dirty_line && final(target).model@[r].dirty_line,
            forall|r: int| to_row < r < old(self).rows ==> #[trigger] final(self).model@[r] == old(self).model@[r],
            forall|r: int| to_row < r < old(target).rows ==> #[trigger] final(target).model@[r] == old(target).model@[r],
            forall|r: int, c: int| 0 <= r <= to_row && 0 <= c < old(self).columns ==> #[trigger] final(self).cell(r, c) == old(target).cell(r, c),
            forall|r: int, c: int| 0 <= r <= to_row && 0 <= c < old(target).columns ==> #[trigger] final(target).cell(r, c) == (
                if c < old(self).columns { old(self).cell(r, c) } else { old(target).cell(r, c) }),
    {
        let columns = self.columns;
        let mut r: usize = 0;
        while r <= to_row
            invariant
                r <= to_row + 1,
                to_row < self.rows,
                to_row < target.rows,
                to_row < usize::MAX,
                columns == self.columns,
                0 < self.columns <= target.columns,
                self.well_formed(),
                target.well_formed(),
                old(self).well_formed(),
                old(target).well_formed(),
                self.rows == old(self).rows,
                self.columns == old(self).columns,
                self.cur_row == old(self).cur_row,
                self.cur_col == old(self).cur_col,
                target.rows == old(target).rows,
                target.columns == old(target).columns,
                target.cur_row == old(target).cur_row,
                target.cur_col == old(target).cur_col,
                forall|q: int| 0 <= q < r ==> (#[trigger] self.model@[q]).dirty_line && target.model@[q].dirty_line,
                forall|q: int| r <= q < old(self).rows ==> #[trigger] self.model@[q] == old(self).model@[q],
                forall|q: int| r <= q < old(target).rows ==> #[trigger] target.model@[q] == old(target).model@[q],
                forall|q: int, c: int| 0 <= q < r && 0 <= c < old(self).columns ==> #[trigger] self.cell(q, c) == old(target).cell(q, c),
                forall|q: int, c: int| 0 <= q < r && 0 <= c < old(target).columns ==> #[trigger] target.cell(q, c) == (
                    if c < old(self).columns { old(self).cell(q, c) } else { old(target).cell(q, c) }),
            decreases to_row + 1 - r,
        {
            let ghost s0 = self.model@;
            let ghost t0 = target.model@;
            let ghost prev_s = *self;
            let ghost prev_t = *target;
            self.model[r].dirty_line = true;
            target.model[r].dirty_line = true;
            let mut c: usize = 0;
            while c < columns
                invariant
                    r <= to_row,
                    c <= columns,
                    columns == self.columns,
                    0 < self.columns <= target.columns,
                    to_row < self.rows,
                    to_row < target.rows,
                    self.rows == old(self).rows,
                    self.columns == old(self).columns,
                    self.cur_row == old(self).cur_row,
                    self.cur_col == old(self).cur_col,
                    target.rows == old(target).rows,
                    target.columns == old(target).columns,
                    target.cur_row == old(target).cur_row,
                    target.cur_col == old(target).cur_col,
                    self.model@.len() == s0.len(),
                    target.model@.len() == t0.len(),
                    s0.len() == old(self).rows,
                    t0.len() == old(target).rows,
                    self.model@[r as int].dirty_line,
                    target.model@[r as int].dirty_line,
                    self.model@[r as int].line@.len() == self.columns,
                    target.model@[r as int].line@.len() == target.columns,
                    forall|q: int| 0 <= q < s0.len() && q != r ==> #[trigger] self.model@[q] == s0[q],
                    forall|q: int| 0 <= q < t0.len() && q != r ==> #[trigger] target.model@[q] == t0[q],
                    s0[r as int] == old(self).model@[r as int],
                    t0[r as int] == old(target).model@[r as int],
                    forall|k: int| 0 <= k < self.columns ==> #[trigger] self.cell(r as int, k) == (
                        if k < c { old(target).cell(r as int, k) } else { old(self).cell(r as int, k) }),
                    forall|k: int| 0 <= k < target.columns ==> #[trigger] target.cell(r as int, k) == (
                        if k < c { old(self).cell(r as int, k) } else { old(target).cell(r as int, k) }),
                decreases columns - c,
            {
                let a = self.model[r].line[c].duplicate();
                let b = target.model[r].line[c].duplicate();
                let ghost before_s = self.model@[r as int].line@;
                let ghost before_t = target.model@[r as int].line@;
                assert forall|k: int| 0 <= k < self.columns implies (#[trigger] before_s[k])@ == (
                        if k < c { old(target).cell(r as int, k) } else { old(self).cell(r as int, k) }) by {
                    assert(self.cell(r as int, k) == before_s[k]@);
                }
                assert forall|k: int| 0 <= k < target.columns implies (#[trigger] before_t[k])@ == (
                        if k < c { old(self).cell(r as int, k) } else { old(target).cell(r as int, k) }) by {
                    assert(target.cell(r as int, k) == before_t[k]@);
                }
                self.model[r].line.set(c, b);
                target.model[r].line.set(c, a);
                c = c + 1;
                assert forall|k: int| 0 <= k < self.columns implies #[trigger] self.cell(r as int, k) == (
                        if k < c { old(target).cell(r as int, k) } else { old(self).cell(r as int, k) }) by {
                    if k != c - 1 {
                        assert(self.model@[r as int].line@[k] == before_s[k]);
                    }
                }
                assert forall|k: int| 0 <= k < target.columns implies #[trigger] target.cell(r as int, k) == (
                        if k < c { old(self).cell(r as int, k) } else { old(target).cell(r as int, k) }) by {
                    if k != c - 1 {
                        assert(target.model@[r as int].line@[k] == before_t[k]);
                    }
                }
            }
            assert forall|q: int, k: int| 0 <= q < r + 1 && 0 <= k < old(self).columns implies #[trigger] self.cell(q, k) == old(target).cell(q, k) by {
                if q < r {
                    assert(self.model@[q] == s0[q]);
                    assert(self.cell(q, k) == prev_s.cell(q, k));
                }
            }
            assert forall|q: int, k: int| 0 <= q < r + 1 && 0 <= k < old(target).columns implies #[trigger] target.cell(q, k) == (
                    if k < old(self).columns { old(self).cell(q, k) } else { old(target).cell(q, k) }) by {
                if q < r {
                    assert(target.model@[q] == t0[q]);
                    assert(target.cell(q, k) == prev_t.cell(q, k));
                }
            }
            assert forall|q: int| 0 <= q < r + 1 implies (#[trigger] self.model@[q]).dirty_line && target.model@[q].dirty_line by {
                if q < r {
                    assert(self.model@[q] == s0[q]);
                    assert(target.model@[q] == t0[q]);
                }
            }
            r = r + 1;
        }
    }

    /// Swaps the cells `left..=right` of rows `a` and `b`; both rows are
    /// marked changed.
    fn swap_cells(&mut self, a: usize, b: usize, left: usize, right: usize)
        requires
            old(self).well_formed(),
            a < old(self).rows,
            b < old(self).rows,
            a != b,
            left <= right < old(self).columns,
        ensures
            final(self).well_formed(),
            final(self).rows == old(self).rows,
            final(self).columns == old(self).columns,
            final(self).cur_row == old(self).cur_row,
            final(self).cur_col == old(self).cur_col,
            final(self).model@[a as int].dirty_line,
            final(self).model@[b as int].dirty_line,
            forall|r: int| 0 <= r < old(self).rows && r != a && r != b ==> #[trigger] final(self).model@[r] == old(self).model@[r],
            forall|c: int| 0 <= c < old(self).columns ==> #[trigger] final(self).cell(a as int, c) == (
                if left <= c <= right { old(self).cell(b as int, c) } else { old(self).cell(a as int, c) }),
            forall|c: int| 0 <= c < old(self).columns ==> #[trigger] final(self).cell(b as int, c) == (
                if left <= c <= right { old(self).cell(a as int, c) } else { old(self).cell(b as int, c) }),
    {
        self.model[a].dirty_line = true;
        self.model[b].dirty_line = true;
        let mut c = left;
        while c <= right
            invariant
                left <= c <= right + 1,
                right < self.columns,
                right < usize::MAX,
                a < self.rows,
                b < self.rows,
                a != b,
                self.rows == old(self).rows,
                self.columns == old(self).columns,
                self.cur_row == old(self).cur_row,
                self.cur_col == old(self).cur_col,
                self.model@.len() == old(self).model@.len(),
                self.model@[a as int].dirty_line,
                self.model@[b as int].dirty_line,
                self.model@[a as int].line@.len() == self.columns,
                self.model@[b as int].line@.len() == self.columns,
                old(self).well_formed(),
                forall|r: int| 0 <= r < old(self).rows && r != a && r != b ==> #[trigger] self.model@[r] == old(self).model@[r],
                forall|k: int| 0 <= k < old(self).columns ==> #[trigger] self.cell(a as int, k) == (
                    if left <= k < c { old(self).cell(b as int, k) } else { old(self).cell(a as int, k) }),
                forall|k: int| 0 <= k < old(self).columns ==> #[trigger] self.cell(b as int, k) == (
                    if left <= k < c { old(self).cell(a as int, k) } else { old(self).cell(b as int, k) }),
            decreases right + 1 - c,
        {
            let ca = self.model[a].line[c].duplicate();
            let cb = self.model[b].line[c].duplicate();
            let ghost before_a = self.model@[a as int].line@;
            let ghost before_b = self.model@[b as int].line@;
            assert forall|k: int| 0 <= k < old(self).columns implies (#[trigger] before_a[k])@ == (
                    if left <= k < c { old(self).cell(b as int, k) } else { old(self).cell(a as int, k) }) by {
                assert(self.cell(a as int, k) == before_a[k]@);
            }
            assert forall|k: int| 0 <= k < old(self).columns implies (#[trigger] before_b[k])@ == (
                    if left <= k < c { old(self).cell(a as int, k) } else { old(self).cell(b as int, k) }) by {
                assert(self.cell(b as int, k) == before_b[k]@);
            }
            self.model[a].line.set(c, cb);
            assert(self.model@[b as int].line@ == before_b);
            self.model[b].line.set(c, ca);
            assert(self.model@[a as int].line@ == before_a.update(c as int, cb));
            c = c + 1;
            assert forall|k: int| 0 <= k < old(self).columns implies #[trigger] self.cell(a as int, k) == (
                    if left <= k < c { old(self).cell(b as int, k) } else { old(self).cell(a as int, k) }) by {
                if k != c - 1 {
                    assert(self.model@[a as int].line@[k] == before_a[k]);
                }
            }
            assert forall|k: int| 0 <= k < old(self).columns implies #[trigger] self.cell(b as int, k) == (
                    if left <= k < c { old(self).cell(a as int, k) } else { old(self).cell(b as int, k) }) by {
                if k != c - 1 {
                    assert(self.model@[b as int].line@[k] == before_b[k]);
                }
            }
        }
    }

    /// Clears the cells `left..=right` of the rows `top..bot` (the row `bot`
    /// itself is not cleared) to highlight `hl`.
    pub fn clear_region(&mut self, top: usize, bot: usize, left: usize, right: usize, hl: Highlight)
        requires
            old(self).well_formed(),
            top <= bot <= old(self).rows,
            left <= right < old(self).columns,
        ensures
            final(self).well_formed(),
            final(self).rows == old(self).rows,
            final(self).columns == old(self).columns,
            final(self).cur_row == old(self).cur_row,
            final(self).cur_col == old(self).cur_col,
            forall|r: int| 0 <= r < old(self).rows && !(top <= r < bot) ==> #[trigger] final(self).model@[r] == old(self).model@[r],
            forall|r: int| top <= r < bot ==> (#[trigger] final(self).model@[r]).dirty_line,
            forall|r: int, c: int| 0 <= r < old(self).rows && 0 <= c < old(self).columns ==> #[trigger] final(self).cell(r, c) == (
                if top <= r < bot && left <= c <= right { cleared_cell(hl) } else { old(self).cell(r, c) }),
    {
        let mut r = top;
        while r < bot
            invariant
                top <= r <= bot,
                bot <= self.rows,
                left <= right < self.columns,
                old(self).well_formed(),
                self.well_formed(),
                self.rows == old(self).rows,
                self.columns == old(self).columns,
                self.cur_row == old(self).cur_row,
                self.cur_col == old(self).cur_col,
                forall|q: int| 0 <= q < old(self).rows && !(top <= q < r) ==> #[trigger] self.model@[q] == old(self).model@[q],
                forall|q: int| top <= q < r ==> (#[trigger] self.model@[q]).dirty_line,
                forall|q: int, c: int| 0 <= q < old(self).rows && 0 <= c < old(self).columns ==> #[trigger] self.cell(q, c) == (
                    if top <= q < r && left <= c <= right { cleared_cell(hl) } else { old(self).cell(q, c) }),
            decreases bot - r,
        {
            let ghost pre = self.model@;
            assert forall|q: int, c: int| 0 <= q < old(self).rows && 0 <= c < old(self).columns implies (#[trigger] pre[q].line@[c])@ == (
                    if top <= q < r && left <= c <= right { cleared_cell(hl) } else { old(self).cell(q, c) }) by {
                assert(self.cell(q, c) == pre[q].line@[c]@);
            }
            assert(self.model@[r as int].line@.len() == self.columns);
            self.model[r].clear(left, right, hl);
            assert forall|q: int| 0 <= q < old(self).rows && q != r implies #[trigger] self.model@[q] == pre[q] by {}
            r = r + 1;
            assert forall|q: int, c: int| 0 <= q < old(self).rows && 0 <= c < old(self).columns implies #[trigger] self.cell(q, c) == (
                    if top <= q < r && left <= c <= right { cleared_cell(hl) } else { old(self).cell(q, c) }) by {
                if q != r - 1 {
                    assert(self.model@[q] == pre[q]);
                    assert(self.cell(q, c) == pre[q].line@[c]@);
                } else {
                    assert(self.cell(q, c) == (if left <= c <= right { cleared_cell(hl) } else { pre[q].line@[c]@ }));
                }
            }
        }
    }

    /// Clears the grid to highlight `default_hl` the way `clear_region`
    /// clears: every row but the last one.
    pub fn clear(&mut self, default_hl: Highlight)
        requires
            old(self).well_formed(),
            old(self).rows > 0,
            old(self).columns > 0,
        ensures
            final(self).well_formed(),
            final(self).rows == old(self).rows,
            final(self).columns == old(self).columns,
            final(self).cur_row == old(self).cur_row,
            final(self).cur_col == old(self).cur_col,
            forall|r: int, c: int| 0 <= r < old(self).rows && 0 <= c < old(self).columns ==> #[trigger] final(self).cell(r, c)
                == (if r < old(self).rows - 1 { cleared_cell(default_hl) } else { old(self).cell(r, c) }),
    {
        let rows = self.rows;
        let columns = self.columns;
        self.clear_region(0, rows - 1, 0, columns - 1, default_hl);
    }

    /// Scrolls the region `top..=bot` x `left..=right` by `count` rows.
    /// Up (`count > 0`): for each row from `top` to `bot - count - 1` the row
    /// is swapped with the one `count` rows below it, then the rows
    /// `bot - count + 1 .. bot` (without `bot`) are cleared to `default_hl`.
    /// Down (`count < 0`, `n = -count`): from row `bot - 1` down to `top + n`
    /// each row is swapped with the one `n` rows above it, then the rows
    /// `top .. top + n - 1` (without `top + n - 1`) are cleared.
    /// `scrolled_cell` gives the resulting cells.
    pub fn scroll(
        &mut self,
        top: i64,
        bot: i64,
        left: usize,
        right: usize,
        count: i64,
        default_hl: Highlight,
    ) -> (area: ModelRect)
        requires
            old(self).well_formed(),
            0 <= top,
            0 <= bot <= old(self).rows,
            left <= right < old(self).columns,
            count != 0,
            count > 0 ==> count <= bot + 1,
            count < 0 ==> top - count - 1 <= old(self).rows && top - count <= i64::MAX,
        ensures
            final(self).well_formed(),
            final(self).rows == old(self).rows,
            final(self).columns == old(self).columns,
            final(self).cur_row == old(self).cur_row,
            final(self).cur_col == old(self).cur_col,
            area == (ModelRect { top: top as usize, bot: bot as usize, left, right }),
            forall|r: int, c: int| 0 <= r < old(self).rows && 0 <= c < old(self).columns ==> #[trigger] final(self).cell(r, c)
                == scrolled_cell(*old(self), top as int, bot as int, left as int, right as int, count as int, default_hl, r, c),
    {
        if count > 0 {
            let mut row: i64 = top;
            while row < bot - count
                invariant
                    0 <= top <= row,
                    row == top || row <= bot - count,
                    0 < count <= bot + 1,
                    bot <= self.rows,
                    left <= right < self.columns,
                    old(self).well_formed(),
                    self.well_formed(),
                    self.rows == old(self).rows,
                    self.columns == old(self).columns,
                    self.cur_row == old(self).cur_row,
                    self.cur_col == old(self).cur_col,
                    forall|q: int, c: int| 0 <= q < old(self).rows && 0 <= c < old(self).columns ==> #[trigger] self.cell(q, c) == (
                        if left <= c <= right && top <= q < row {
                            old(self).cell(q + count, c)
                        } else if left <= c <= right && row <= q < row + count {
                            old(self).cell(scroll_up_source(top as int, count as int, q), c)
                        } else {
                            old(self).cell(q, c)
                        }),
                decreases bot - row,
            {
                let ghost pre = *self;
                let ghost from = row + count;
                proof {
                    assert(scroll_up_source(top as int, count as int, from) == scroll_up_source(top as int, count as int, row as int));
                }
                self.swap_cells(row as usize, (row + count) as usize, left, right);
                proof {
                    assert forall|q: int, c: int| 0 <= q < old(self).rows && 0 <= c < old(self).columns implies #[trigger] self.cell(q, c) == (
                            if left <= c <= right && top <= q < row + 1 {
                                old(self).cell(q + count, c)
                            } else if left <= c <= right && row + 1 <= q < row + 1 + count {
                                old(self).cell(scroll_up_source(top as int, count as int, q), c)
                            } else {
                                old(self).cell(q, c)
                            }) by {
                        if q != row && q != from {
                            assert(self.model@[q] == pre.model@[q]);
                            assert(self.cell(q, c) == pre.cell(q, c));
                        } else if q == row {
                            assert(pre.cell(from, c) == (if left <= c <= right { old(self).cell(from, c) } else { old(self).cell(from, c) }));
                        }
                    }
                }
                row = row + 1;
            }
            proof {
                assert forall|q: int| q < top + count implies scroll_up_source(top as int, count as int, q) == q by {}
            }
            self.clear_region((bot - count + 1) as usize, bot as usize, left, right, default_hl);
        } else {
            let n: i64 = 0 - count;
            let mut row: i64 = bot;
            while row > top + n
                invariant
                    0 <= top,
                    top + n <= i64::MAX,
                    top + n - 1 <= self.rows,
                    n == -count,
                    n > 0,
                    row <= bot,
                    row == bot || top + n <= row,
                    0 <= bot <= self.rows,
                    left <= right < self.columns,
                    old(self).well_formed(),
                    self.well_formed(),
                    self.rows == old(self).rows,
                    self.columns == old(self).columns,
                    self.cur_row == old(self).cur_row,
                    self.cur_col == old(self).cur_col,
                    forall|q: int, c: int| 0 <= q < old(self).rows && 0 <= c < old(self).columns ==> #[trigger] self.cell(q, c) == (
                        if left <= c <= right && row <= q < bot {
                            old(self).cell(q - n, c)
                        } else if left <= c <= right && row - n <= q < row {
                            old(self).cell(scroll_down_source(bot as int, n as int, q), c)
                        } else {
                            old(self).cell(q, c)
                        }),
                decreases row,
            {
                let ghost pre = *self;
                let target = row - 1;
                let ghost from = target - n;
                proof {
                    assert(scroll_down_source(bot as int, n as int, from) == scroll_down_source(bot as int, n as int, target as int));
                }
                self.swap_cells(target as usize, (target - n) as usize, left, right);
                proof {
                    assert forall|q: int, c: int| 0 <= q < old(self).rows && 0 <= c < old(self).columns implies #[trigger] self.cell(q, c) == (
                            if left <= c <= right && target <= q < bot {
                                old(self).cell(q - n, c)
                            } else if left <= c <= right && target - n <= q < target {
                                old(self).cell(scroll_down_source(bot as int, n as int, q), c)
                            } else {
                                old(self).cell(q, c)
                            }) by {
                        if q != target && q != from {
                            assert(self.model@[q] == pre.model@[q]);
                            assert(self.cell(q, c) == pre.cell(q, c));
                        }
                    }
                }
                row = target;
            }
            proof {
                assert forall|q: int| q + n > bot - 1 implies scroll_down_source(bot as int, n as int, q) == q by {}
            }
            self.clear_region(top as usize, (top + n - 1) as usize, left, right, default_hl);
        }
        ModelRect::new(top as usize, bot as usize, left, right)
    }
}

/// Where the row `q` of a region that starts at `top` takes its content from
/// when it is the last row that scrolling up by `count` swaps into place: the
/// swaps carry the row `q - count`, which was carried there from `q - 2 * count`,
/// and so on down to a row above `top + count`.
pub open spec fn scroll_up_source(top: int, count: int, q: int) -> int
    decreases q - top,
{
    if count <= 0 || q < top + count {
        q
    } else {
        scroll_up_source(top, count, q - count)
    }
}

/// Where the row `q` takes its content from when scrolling down by `n` in a
/// region that ends before `bot`: the row `q + n`, which was carried there
/// from `q + 2 * n`, and so on up to the last row that is still before `bot`.
pub open spec fn scroll_down_source(bot: int, n: int, q: int) -> int
    decreases bot - q,
{
    if n <= 0 || q + n > bot - 1 {
        q
    } else {
        scroll_down_source(bot, n, q + n)
    }
}

/// The cell at `r`, `c` after `model` is scrolled by `count` in the region
/// `top..=bot` x `left..=right` (see `UiModel::scroll`).
pub open spec fn scrolled_cell(
    model: UiModel,
    top: int,
    bot: int,
    left: int,
    right: int,
    count: int,
    hl: Highlight,
    r: int,
    c: int,
) -> CellView {
    if left <= c <= right && count > 0 {
        if bot - count < r < bot {
            cleared_cell(hl)
        } else if top <= r < bot - count {
            model.cell(r + count, c)
        } else if r == bot - count {
            model.cell(scroll_up_source(top, count, r), c)
        } else {
            model.cell(r, c)
        }
    } else if left <= c <= right && count < 0 {
        if top <= r < top - count - 1 {
            cleared_cell(hl)
        } else if top - count <= r < bot {
            model.cell(r + count, c)
        } else if r == top - count - 1 {
            model.cell(scroll_down_source(bot, -count, r), c)
        } else {
            model.cell(r, c)
        }
    } else {
        model.cell(r, c)
    }
}

/// Scrolling a region `top..=bot` up by `n` rows and then down by `n` rows
/// gives back the rows `top + n..=bot` and every cell outside the region,
/// and leaves the rows `top..top + n - 1` (without `top + n - 1`) cleared.
pub proof fn law_scroll_back(
    m0: UiModel,
    m1: UiModel,
    m2: UiModel,
    top: int,
    bot: int,
    left: int,
    right: int,
    n: int,
    hl: Highlight,
)
    requires
        m0.rows == m1.rows == m2.rows,
        m0.columns == m1.columns == m2.columns,
        0 <= top,
        0 <= bot < m0.rows,
        0 <= left <= right < m0.columns,
        0 < n,
        top + n <= bot,
        forall|r: int, c: int| 0 <= r < m0.rows && 0 <= c < m0.columns ==> #[trigger] m1.cell(r, c)
            == scrolled_cell(m0, top, bot, left, right, n, hl, r, c),
        forall|r: int, c: int| 0 <= r < m0.rows && 0 <= c < m0.columns ==> #[trigger] m2.cell(r, c)
            == scrolled_cell(m1, top, bot, left, right, -n, hl, r, c),
    ensures
        forall|r: int, c: int| top + n <= r <= bot && left <= c <= right ==> #[trigger] m2.cell(r, c) == m0.cell(r, c),
        forall|r: int, c: int| top <= r < top + n - 1 && left <= c <= right ==> #[trigger] m2.cell(r, c) == cleared_cell(hl),
        forall|r: int, c: int| 0 <= r < m0.rows && 0 <= c < m0.columns && !(top <= r <= bot && left <= c <= right)
            ==> #[trigger] m2.cell(r, c) == m0.cell(r, c),
{
    assert forall|r: int, c: int| top + n <= r <= bot && left <= c <= right implies #[trigger] m2.cell(r, c) == m0.cell(r, c) by {
        if r < bot {
            assert(m2.cell(r, c) == m1.cell(r - n, c));
            assert(m1.cell(r - n, c) == m0.cell(r, c));
        } else {
            assert(m2.cell(r, c) == m1.cell(r, c));
            assert(m1.cell(r, c) == m0.cell(r, c));
        }
    }
    assert forall|r: int, c: int| 0 <= r < m0.rows && 0 <= c < m0.columns && !(top <= r <= bot && left <= c <= right)
        implies #[trigger] m2.cell(r, c) == m0.cell(r, c) by {
        assert(m2.cell(r, c) == m1.cell(r, c));
    }
}

/// Moving the cursor asks to repaint both the cell it left and the cell it moved to.
pub proof fn law_cursor_repaint(old_row: usize, old_col: usize, row: usize, col: usize)
    requires
        old_row < usize::MAX,
        old_col < usize::MAX,
        row < usize::MAX,
        col < usize::MAX,
    ensures
        crate::model_rect::list_covers(
            spec_vec_join(
                seq![ModelRect { top: old_row, bot: old_row, left: old_col, right: old_col }],
                ModelRect { top: row, bot: row, left: col, right: col },
            ),
            old_row as int,
            old_col as int,
        ),
        crate::model_rect::list_covers(
            spec_vec_join(
                seq![ModelRect { top: old_row, bot: old_row, left: old_col, right: old_col }],
                ModelRect { top: row, bot: row, left: col, right: col },
            ),
            row as int,
            col as int,
        ),
{
    let p = ModelRect { top: old_row, bot: old_row, left: old_col, right: old_col };
    let q = ModelRect { top: row, bot: row, left: col, right: col };
    assert(seq![p][0].covers(old_row as int, old_col as int));
    crate::model_rect::law_vec_join_covers(seq![p], q, old_row as int, old_col as int);
    crate::model_rect::law_vec_join_covers(seq![p], q, row as int, col as int);
}

} // verus!

//! Laying text out in rows of a bounded width.
use vstd::prelude::*;

use crate::highlight::Highlight;
use crate::text::push_char;
use crate::ui_model::{cleared_cell, CellView, UiModel};
use crate::highlight::plain_highlight;

verus! {

/// The characters of a line, over all its chunks.
pub open spec fn line_len(line: Seq<(Option<Highlight>, Vec<char>)>) -> int
    decreases line.len(),
{
    if line.len() == 0 {
        0
    } else {
        line_len(line.drop_last()) + line.last().1@.len()
    }
}

/// The rows that the lines take when wrapped at `max_columns + 1` characters.
pub open spec fn rows_needed(lines: Seq<Vec<(Option<Highlight>, Vec<char>)>>, max_columns: int) -> int
    decreases lines.len(),
{
    if lines.len() == 0 {
        0
    } else {
        rows_needed(lines.drop_last(), max_columns) + line_len(lines.last()@) / (max_columns + 1) + 1
    }
}

/// The characters of each line, and then the rows the lines need, fit in a
/// machine word.
pub open spec fn layout_fits(lines: Seq<Vec<(Option<Highlight>, Vec<char>)>>, max_columns: int) -> bool {
    &&& forall|i: int| 0 <= i < lines.len() ==> line_len(#[trigger] lines[i]@) <= usize::MAX
    &&& forall|n: int| 0 <= n <= lines.len() ==> #[trigger] rows_needed(lines.take(n), max_columns) <= usize::MAX
}

fn count_line(line: &Vec<(Option<Highlight>, Vec<char>)>) -> (n: usize)
    requires
        line_len(line@) <= usize::MAX,
    ensures
        n == line_len(line@),
{
    let mut n: usize = 0;
    let mut i: usize = 0;
    while i < line.len()
        invariant
            i <= line@.len(),
            n == line_len(line@.take(i as int)),
            line_len(line@) <= usize::MAX,
        decreases line@.len() - i,
    {
        proof {
            assert(line@.take(i + 1).drop_last() =~= line@.take(i as int));
            lemma_line_len_prefix(line@, i + 1);
        }
        n = n + line[i].1.len();
        i = i + 1;
    }
    proof {
        assert(line@.take(i as int) =~= line@);
    }
    n
}

/// A prefix of a line has no more characters than the line.
proof fn lemma_line_len_prefix(line: Seq<(Option<Highlight>, Vec<char>)>, n: int)
    requires
        0 <= n <= line.len(),
    ensures
        0 <= line_len(line.take(n)) <= line_len(line),
    decreases line.len() - n,
{
    if n < line.len() {
        lemma_line_len_prefix(line, n + 1);
        assert(line.take(n + 1).drop_last() =~= line.take(n));
    } else {
        assert(line.take(n) =~= line);
    }
    lemma_line_len_nonneg(line.take(n));
}

proof fn lemma_line_len_nonneg(line: Seq<(Option<Highlight>, Vec<char>)>)
    ensures
        line_len(line) >= 0,
    decreases line.len(),
{
    if line.len() > 0 {
        lemma_line_len_nonneg(line.drop_last());
    }
}

/// The number of rows the lines take when each is wrapped at
/// `max_columns + 1` characters.
pub fn count_lines(lines: &Vec<Vec<(Option<Highlight>, Vec<char>)>>, max_columns: usize) -> (rows: usize)
    requires
        max_columns < usize::MAX,
        layout_fits(lines@, max_columns as int),
    ensures
        rows == rows_needed(lines@, max_columns as int),
{
    let mut row_count: usize = 0;
    let mut i: usize = 0;
    proof {
        assert(lines@.take(0) =~= Seq::<Vec<(Option<Highlight>, Vec<char>)>>::empty());
    }
    while i < lines.len()
        invariant
            i <= lines@.len(),
            max_columns < usize::MAX,
            layout_fits(lines@, max_columns as int),
            row_count == rows_needed(lines@.take(i as int), max_columns as int),
        decreases lines@.len() - i,
    {
        let len = count_line(&lines[i]);
        proof {
            assert(lines@.take(i + 1).drop_last() =~= lines@.take(i as int));
            assert(lines@.take(i + 1).last() == lines@[i as int]);
            assert(rows_needed(lines@.take(i + 1), max_columns as int) <= usize::MAX);
        }
        row_count = row_count + len / (max_columns + 1) + 1;
        i = i + 1;
    }
    proof {
        assert(lines@.take(i as int) =~= lines@);
    }
    row_count
}


/// The characters of all the lines together.
pub open spec fn total_len(lines: Seq<Vec<(Option<Highlight>, Vec<char>)>>) -> int
    decreases lines.len(),
{
    if lines.len() == 0 {
        0
    } else {
        total_len(lines.drop_last()) + line_len(lines.last()@)
    }
}

/// The width that `layout` gives: one more than the highest column a
/// character went to. Columns run on from line to line, `0..=max_columns`
/// over and over, and the first character goes to column 1.
pub open spec fn layout_width(lines: Seq<Vec<(Option<Highlight>, Vec<char>)>>, max_columns: int) -> int {
    if total_len(lines) < max_columns { total_len(lines) + 1 } else { max_columns + 1 }
}

/// The characters of a chunk, each with the chunk's highlight and the index
/// `line` of its line.
pub open spec fn chunk_chars(hl: Option<Highlight>, chars: Seq<char>, line: int) -> Seq<(Option<Highlight>, char, int)> {
    chars.map_values(|c: char| (hl, c, line))
}

/// The characters of the line with index `idx`, over all its chunks.
pub open spec fn line_chars(line: Seq<(Option<Highlight>, Vec<char>)>, idx: int) -> Seq<(Option<Highlight>, char, int)>
    decreases line.len(),
{
    if line.len() == 0 {
        Seq::empty()
    } else {
        line_chars(line.drop_last(), idx) + chunk_chars(line.last().0, line.last().1@, idx)
    }
}

/// The characters of all the lines, one after the other.
pub open spec fn lines_chars(lines: Seq<Vec<(Option<Highlight>, Vec<char>)>>) -> Seq<(Option<Highlight>, char, int)>
    decreases lines.len(),
{
    if lines.len() == 0 {
        Seq::empty()
    } else {
        lines_chars(lines.drop_last()) + line_chars(lines.last()@, lines.len() - 1)
    }
}

/// Where the character with index `k` of all the lines goes, `line` being
/// the index of its line: the column runs `1, 2, ..., max_columns, 0, 1, ...`
/// over all the characters, and the row is the line's index plus the times
/// the column has wrapped so far.
pub open spec fn layout_target(k: int, line: int, max_columns: int) -> (int, int) {
    (line + (k + 1) / (max_columns + 1), (k + 1) % (max_columns + 1))
}

/// The cursor of a model with `rows` rows of `columns` cells, starting at
/// `cur`, once the characters `chars` are laid out: each moves it to its
/// target where that lies inside the model, and leaves it where it was
/// otherwise.
pub open spec fn layout_cursor(rows: int, columns: int, cur: (int, int), chars: Seq<(Option<Highlight>, char, int)>, max_columns: int) -> (int, int)
    decreases chars.len(),
{
    if chars.len() == 0 {
        cur
    } else {
        let t = layout_target(chars.len() - 1, chars.last().2, max_columns);
        if 0 <= t.0 < rows && 0 <= t.1 < columns {
            t
        } else {
            layout_cursor(rows, columns, cur, chars.drop_last(), max_columns)
        }
    }
}

/// The cell `r`, `c` of `model` once the characters `chars` are laid out:
/// the last character written at the cursor there, in its chunk's highlight
/// or the plain one, or the cell as it was where none was.
pub open spec fn layout_cell(model: UiModel, chars: Seq<(Option<Highlight>, char, int)>, max_columns: int, r: int, c: int) -> CellView
    decreases chars.len(),
{
    if chars.len() == 0 {
        model.cell(r, c)
    } else if layout_cursor(model.rows as int, model.columns as int, (model.cur_row as int, model.cur_col as int), chars, max_columns)
        == (r, c) {
        CellView {
            hl: match chars.last().0 {
                Some(h) => h,
                None => plain_highlight(),
            },
            ch: seq![chars.last().1],
            dirty: model.cell(r, c).dirty,
            double_width: false,
        }
    } else {
        layout_cell(model, chars.drop_last(), max_columns, r, c)
    }
}

/// The cell `r`, `c` of `model` once `lines` are laid out in it.
pub open spec fn laid_out_cell(model: UiModel, lines: Seq<Vec<(Option<Highlight>, Vec<char>)>>, max_columns: int, r: int, c: int) -> CellView {
    layout_cell(model, lines_chars(lines), max_columns, r, c)
}

/// The cursor of `model` once `lines` are laid out in it.
pub open spec fn laid_out_cursor(model: UiModel, lines: Seq<Vec<(Option<Highlight>, Vec<char>)>>, max_columns: int) -> (int, int) {
    layout_cursor(model.rows as int, model.columns as int, (model.cur_row as int, model.cur_col as int), lines_chars(lines), max_columns)
}

proof fn lemma_line_chars_len(line: Seq<(Option<Highlight>, Vec<char>)>, idx: int)
    ensures
        line_chars(line, idx).len() == line_len(line),
    decreases line.len(),
{
    if line.len() > 0 {
        lemma_line_chars_len(line.drop_last(), idx);
    }
}

proof fn lemma_lines_chars_len(lines: Seq<Vec<(Option<Highlight>, Vec<char>)>>)
    ensures
        lines_chars(lines).len() == total_len(lines),
    decreases lines.len(),
{
    if lines.len() > 0 {
        lemma_lines_chars_len(lines.drop_last());
        lemma_line_chars_len(lines.last()@, lines.len() - 1);
    }
}

/// Laying characters out never changes a cell's `dirty` mark.
proof fn lemma_layout_cell_dirty(model: UiModel, chars: Seq<(Option<Highlight>, char, int)>, max_columns: int, r: int, c: int)
    ensures
        layout_cell(model, chars, max_columns, r, c).dirty == model.cell(r, c).dirty,
    decreases chars.len(),
{
    if chars.len() > 0 {
        lemma_layout_cell_dirty(model, chars.drop_last(), max_columns, r, c);
    }
}

/// One more character moves the column one on, wrapping past `m` to 0 and
/// to the next row.
proof fn lemma_wrap_step(d: int, m: int)
    requires
        d >= 0,
        m >= 0,
    ensures
        0 <= d % (m + 1) <= m,
        d / (m + 1) <= d,
        d % (m + 1) == m ==> (d + 1) % (m + 1) == 0 && (d + 1) / (m + 1) == d / (m + 1) + 1,
        d % (m + 1) < m ==> (d + 1) % (m + 1) == d % (m + 1) + 1 && (d + 1) / (m + 1) == d / (m + 1),
        0int % (m + 1) == 0 && 0int / (m + 1) == 0,
{
    let q = d / (m + 1);
    let r = d % (m + 1);
    vstd::arithmetic::div_mod::lemma_fundamental_div_mod(d, m + 1);
    vstd::arithmetic::div_mod::lemma_mod_pos_bound(d, m + 1);
    vstd::arithmetic::div_mod::lemma_fundamental_div_mod_converse(0, m + 1, 0, 0);
    assert(q >= 0) by {
        vstd::arithmetic::div_mod::lemma_div_pos_is_pos(d, m + 1);
    }
    assert(q <= d) by (nonlinear_arith)
        requires
            d == (m + 1) * q + r,
            q >= 0,
            r >= 0,
            m >= 0,
    ;
    if r == m {
        assert(d + 1 == (q + 1) * (m + 1) + 0) by (nonlinear_arith)
            requires
                d == (m + 1) * q + r,
                r == m,
        ;
        vstd::arithmetic::div_mod::lemma_fundamental_div_mod_converse(d + 1, m + 1, q + 1, 0);
    } else {
        assert(d + 1 == q * (m + 1) + (r + 1)) by (nonlinear_arith)
            requires
                d == (m + 1) * q + r,
        ;
        vstd::arithmetic::div_mod::lemma_fundamental_div_mod_converse(d + 1, m + 1, q, r + 1);
    }
}

/// Lines laid out in a model of cells.
pub struct ModelLayout {
    pub model: UiModel,
    pub rows_filled: usize,
}

impl ModelLayout {
    /// An empty layout: a model of 10 rows of 50 cleared cells.
    pub fn new() -> (l: ModelLayout)
        ensures
            l.model.well_formed(),
            l.model.rows == 10,
            l.model.columns == 50,
            l.model.cur_row == 0,
            l.model.cur_col == 0,
            l.rows_filled == 0,
            forall|r: int, c: int| 0 <= r < 10 && 0 <= c < 50 ==> #[trigger] l.model.cell(r, c) == cleared_cell(plain_highlight()),
    {
        ModelLayout { model: UiModel::new(10, 50), rows_filled: 0 }
    }

    /// Wraps the lines into the model, one character to a cell: each
    /// character moves the cursor one column on, or to column 0 of the next
    /// row past `max_columns`, and each line ends the row; the column runs
    /// on from one line to the next. A position outside the model leaves the
    /// cursor where it was, and the character is written there. Gives the
    /// width used and the rows the lines need (`laid_out_cell` gives the
    /// cells).
    pub fn layout(&mut self, lines: Vec<Vec<(Option<Highlight>, Vec<char>)>>, max_columns: usize) -> (r: (usize, usize))
        requires
            old(self).model.well_formed(),
            old(self).model.cur_row < old(self).model.rows,
            old(self).model.cur_col < old(self).model.columns,
            max_columns < usize::MAX,
            layout_fits(lines@, max_columns as int),
            total_len(lines@) + lines@.len() <= usize::MAX,
        ensures
            r.1 == rows_needed(lines@, max_columns as int),
            r.0 == layout_width(lines@, max_columns as int),
            1 <= r.0 <= max_columns + 1,
            final(self).rows_filled == r.1,
            final(self).model.well_formed(),
            final(self).model.rows == old(self).model.rows,
            final(self).model.columns == old(self).model.columns,
            final(self).model.cur_row < final(self).model.rows,
            final(self).model.cur_col < final(self).model.columns,
            (final(self).model.cur_row as int, final(self).model.cur_col as int) == laid_out_cursor(
                old(self).model,
                lines@,
                max_columns as int,
            ),
            forall|r: int, c: int| 0 <= r < old(self).model.rows && 0 <= c < old(self).model.columns ==> #[trigger] final(self).model.cell(r, c)
                == laid_out_cell(old(self).model, lines@, max_columns as int, r, c),
    {
        let ghost model0 = self.model;
        let ghost mut s: Seq<(Option<Highlight>, char, int)> = Seq::empty();
        let rows = count_lines(&lines, max_columns);
        self.rows_filled = rows;
        let ghost model_rows = self.model.rows;
        let ghost model_columns = self.model.columns;
        let ghost m = max_columns as int;
        let mut max_col_idx: usize = 0;
        let mut col_idx: usize = 0;
        let mut row_idx: usize = 0;
        let mut i: usize = 0;
        proof {
            assert(lines@.take(0) =~= Seq::<Vec<(Option<Highlight>, Vec<char>)>>::empty());
            lemma_total_len_prefix(lines@, lines@.len() as int);
            assert(lines@.take(lines@.len() as int) =~= lines@);
            lemma_wrap_step(0, m);
            assert(lines_chars(lines@.take(0)) =~= s);
        }
        while i < lines.len()
            invariant
                i <= lines@.len(),
                max_columns < usize::MAX,
                total_len(lines@) + lines@.len() <= usize::MAX,
                total_len(lines@.take(i as int)) <= total_len(lines@),
                forall|n: int| 0 <= n <= lines@.len() ==> #[trigger] total_len(lines@.take(n)) <= total_len(lines@),
                self.rows_filled == rows,
                rows == rows_needed(lines@, max_columns as int),
                self.model.well_formed(),
                self.model.rows == model_rows,
                self.model.columns == model_columns,
                self.model.cur_row < self.model.rows,
                self.model.cur_col < self.model.columns,
                col_idx <= max_columns,
                total_len(lines@.take(i as int)) <= max_columns ==> col_idx == total_len(lines@.take(i as int)),
                max_col_idx == (if total_len(lines@.take(i as int)) < max_columns { total_len(lines@.take(i as int)) } else { max_columns as int }),
                row_idx <= total_len(lines@.take(i as int)) + i,
                s == lines_chars(lines@.take(i as int)),
                s.len() == total_len(lines@.take(i as int)),
                row_idx == i + (s.len() as int) / (m + 1),
                col_idx == (s.len() as int) % (m + 1),
                m == max_columns,
                (self.model.cur_row as int, self.model.cur_col as int) == layout_cursor(model0.rows as int, model0.columns as int,
                    (model0.cur_row as int, model0.cur_col as int), s, m),
                model0.rows == model_rows,
                model0.columns == model_columns,
                forall|r: int, c: int| 0 <= r < model_rows && 0 <= c < model_columns ==> #[trigger] self.model.cell(r, c)
                    == layout_cell(model0, s, m, r, c),
            decreases lines@.len() - i,
        {
            let content = &lines[i];
            let ghost done0 = total_len(lines@.take(i as int));
            proof {
                assert(lines@.take(i + 1).drop_last() =~= lines@.take(i as int));
                assert(lines@.take(i + 1).last() == lines@[i as int]);
                assert(total_len(lines@.take(i + 1)) == done0 + line_len(content@));
                assert(total_len(lines@.take(i + 1)) <= total_len(lines@));
                assert(content@.take(0) =~= Seq::<(Option<Highlight>, Vec<char>)>::empty());
                lemma_line_len_prefix(content@, 0);
                assert(line_chars(content@.take(0), i as int) =~= Seq::<(Option<Highlight>, char, int)>::empty());
                assert(s =~= lines_chars(lines@.take(i as int)) + line_chars(content@.take(0), i as int));
            }
            let mut j: usize = 0;
            while j < content.len()
                invariant
                    i < lines@.len(),
                    content == lines@[i as int],
                    j <= content@.len(),
                    max_columns < usize::MAX,
                    done0 + line_len(content@) + i + 1 <= usize::MAX,
                    self.rows_filled == rows,
                    self.model.well_formed(),
                    self.model.rows == model_rows,
                    self.model.columns == model_columns,
                    self.model.cur_row < self.model.rows,
                    self.model.cur_col < self.model.columns,
                    col_idx <= max_columns,
                    done0 + line_len(content@.take(j as int)) <= max_columns ==> col_idx == done0 + line_len(content@.take(j as int)),
                    max_col_idx == (if done0 + line_len(content@.take(j as int)) < max_columns {
                        done0 + line_len(content@.take(j as int))
                    } else {
                        max_columns as int
                    }),
                    row_idx <= done0 + line_len(content@.take(j as int)) + i,
                    line_len(content@.take(j as int)) <= line_len(content@),
                    s == lines_chars(lines@.take(i as int)) + line_chars(content@.take(j as int), i as int),
                    s.len() == done0 + line_len(content@.take(j as int)),
                    done0 == total_len(lines@.take(i as int)),
                    row_idx == i + (s.len() as int) / (m + 1),
                    col_idx == (s.len() as int) % (m + 1),
                    m == max_columns,
                    (self.model.cur_row as int, self.model.cur_col as int) == layout_cursor(model0.rows as int, model0.columns as int,
                        (model0.cur_row as int, model0.cur_col as int), s, m),
                    model0.rows == model_rows,
                    model0.columns == model_columns,
                    forall|r: int, c: int| 0 <= r < model_rows && 0 <= c < model_columns ==> #[trigger] self.model.cell(r, c)
                        == layout_cell(model0, s, m, r, c),
                decreases content@.len() - j,
            {
                let attr = &content[j].0;
                let ch_list = &content[j].1;
                let ghost done1 = done0 + line_len(content@.take(j as int));
                proof {
                    assert(content@.take(j + 1).drop_last() =~= content@.take(j as int));
                    lemma_line_len_prefix(content@, j + 1);
                    assert(chunk_chars(*attr, ch_list@.take(0), i as int) =~= Seq::<(Option<Highlight>, char, int)>::empty());
                    assert(s =~= lines_chars(lines@.take(i as int)) + line_chars(content@.take(j as int), i as int) + chunk_chars(
                        *attr,
                        ch_list@.take(0),
                        i as int,
                    ));
                }
                let mut k: usize = 0;
                while k < ch_list.len()
                    invariant
                        j < content@.len(),
                        ch_list == content@[j as int].1,
                        k <= ch_list@.len(),
                        done1 == done0 + line_len(content@.take(j as int)),
                        done1 + ch_list@.len() + i + 1 <= usize::MAX,
                        self.rows_filled == rows,
                        max_columns < usize::MAX,
                        self.model.well_formed(),
                        self.model.rows == model_rows,
                        self.model.columns == model_columns,
                        self.model.cur_row < self.model.rows,
                        self.model.cur_col < self.model.columns,
                        col_idx <= max_columns,
                        done1 + k <= max_columns ==> col_idx == done1 + k,
                        max_col_idx == (if done1 + k < max_columns { done1 + k } else { max_columns as int }),
                        row_idx <= done1 + k + i,
                        s == lines_chars(lines@.take(i as int)) + line_chars(content@.take(j as int), i as int) + chunk_chars(*attr, ch_list@.take(k as int), i as int),
                        s.len() == done1 + k,
                        attr == content@[j as int].0,
                        row_idx == i + (s.len() as int) / (m + 1),
                        col_idx == (s.len() as int) % (m + 1),
                        m == max_columns,
                        (self.model.cur_row as int, self.model.cur_col as int) == layout_cursor(model0.rows as int, model0.columns as int,
                            (model0.cur_row as int, model0.cur_col as int), s, m),
                        model0.rows == model_rows,
                        model0.columns == model_columns,
                        forall|r: int, c: int| 0 <= r < model_rows && 0 <= c < model_columns ==> #[trigger] self.model.cell(r, c)
                            == layout_cell(model0, s, m, r, c),
                    decreases ch_list@.len() - k,
                {
                    let ch = ch_list[k];
                    let ghost pre = self.model;
                    let ghost e = (*attr, ch, i as int);
                    proof {
                        lemma_wrap_step(s.len() as int, m);
                    }
                    if col_idx >= max_columns {
                        col_idx = 0;
                        row_idx = row_idx + 1;
                    } else {
                        col_idx = col_idx + 1;
                    }
                    if max_col_idx < col_idx {
                        max_col_idx = col_idx;
                    }
                    self.model.set_cursor(row_idx, col_idx);
                    let (cur_row, cur_col) = self.model.get_cursor();
                    let mut text = String::new();
                    push_char(&mut text, ch);
                    let hl = match attr {
                        Some(h) => Some(h),
                        None => None,
                    };
                    self.model.put_one(cur_row, cur_col, text.as_str(), false, hl);
                    proof {
                        let s2 = s.push(e);
                        assert(s2.drop_last() =~= s);
                        assert(s2.last() == e);
                        assert(layout_target(s.len() as int, i as int, m) == (row_idx as int, col_idx as int));
                        assert(text@ =~= seq![ch]);
                        assert forall|r: int, c: int| 0 <= r < model_rows && 0 <= c < model_columns implies #[trigger] self.model.cell(r, c)
                            == layout_cell(model0, s2, m, r, c) by {
                            lemma_layout_cell_dirty(model0, s, m, r, c);
                            assert(pre.cell(r, c) == layout_cell(model0, s, m, r, c));
                            if r != cur_row {
                                assert(self.model.model@[r] == pre.model@[r]);
                            }
                        }
                        assert(chunk_chars(*attr, ch_list@.take(k + 1), i as int) =~= chunk_chars(*attr, ch_list@.take(k as int), i as int).push(e));
                        s = s2;
                    }
                    k = k + 1;
                }
                proof {
                    assert(ch_list@.take(k as int) =~= ch_list@);
                    assert(content@.take(j + 1).last() == content@[j as int]);
                    assert(line_chars(content@.take(j + 1), i as int) =~= line_chars(content@.take(j as int), i as int) + chunk_chars(
                        *attr,
                        ch_list@,
                        i as int,
                    ));
                    assert(s =~= lines_chars(lines@.take(i as int)) + line_chars(content@.take(j + 1), i as int));
                }
                j = j + 1;
            }
            proof {
                assert(content@.take(j as int) =~= content@);
                assert(lines_chars(lines@.take(i + 1)) == lines_chars(lines@.take(i as int)) + line_chars(content@, i as int));
                lemma_lines_chars_len(lines@.take(i + 1));
            }
            row_idx = row_idx + 1;
            i = i + 1;
        }
        proof {
            assert(lines@.take(i as int) =~= lines@);
        }
        (max_col_idx + 1, rows)
    }
}

/// A prefix of the lines has no more characters than all of them.
proof fn lemma_total_len_prefix(lines: Seq<Vec<(Option<Highlight>, Vec<char>)>>, n: int)
    requires
        0 <= n <= lines.len(),
    ensures
        forall|k: int| 0 <= k <= n ==> 0 <= #[trigger] total_len(lines.take(k)) <= total_len(lines.take(n)),
    decreases n,
{
    if n > 0 {
        lemma_total_len_prefix(lines, n - 1);
        assert(lines.take(n).drop_last() =~= lines.take(n - 1));
        assert(lines.take(n).last() == lines[n - 1]);
        lemma_line_len_nonneg(lines[n - 1]@);
        assert(total_len(lines.take(n)) == total_len(lines.take(n - 1)) + line_len(lines[n - 1]@));
        assert forall|k: int| 0 <= k <= n implies 0 <= #[trigger] total_len(lines.take(k)) <= total_len(lines.take(n)) by {
            if k < n {
                assert(total_len(lines.take(k)) <= total_len(lines.take(n - 1)));
            }
        }
    } else {
        assert(lines.take(0) =~= Seq::<Vec<(Option<Highlight>, Vec<char>)>>::empty());
    }
}

/// Every line takes at least one row.
pub proof fn law_rows_at_least_lines(lines: Seq<Vec<(Option<Highlight>, Vec<char>)>>, max_columns: int)
    requires
        max_columns >= 0,
    ensures
        rows_needed(lines, max_columns) >= lines.len(),
    decreases lines.len(),
{
    if lines.len() > 0 {
        law_rows_at_least_lines(lines.drop_last(), max_columns);
        lemma_line_len_nonneg(lines.last()@);
        assert(line_len(lines.last()@) / (max_columns + 1) >= 0) by (nonlinear_arith)
            requires
                line_len(lines.last()@) >= 0,
                max_columns + 1 > 0,
        ;
    }
}

} // verus!

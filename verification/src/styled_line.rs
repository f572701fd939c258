//! A row of the grid as text to shape: its characters, the cell each byte
//! comes from, and the runs of bytes that share a style.
use vstd::prelude::*;
use vstd::utf8::encode_utf8;

use crate::color::Color;
use crate::highlight::HighlightMap;
use crate::itemize::lemma_encode_concat;
use crate::text::push_str;
use crate::ui_model::{CellView, Line};

verus! {

/// Bytes `start..end` of the text are drawn italic and/or bold, in the
/// foreground color where there is one.
#[derive(Clone, Copy, PartialEq, Eq, Structural, Debug)]
pub struct StyleRun {
    pub italic: bool,
    pub bold: bool,
    pub foreground: Option<Color>,
    pub start: usize,
    pub end: usize,
}

/// The style a cell is drawn in: italic, bold, and its text's color as
/// `HighlightMap::cell_fg` gives it.
pub open spec fn cell_style(c: CellView, hls: HighlightMap) -> (bool, bool, Option<Color>) {
    (
        c.hl.italic,
        c.hl.bold,
        if !c.hl.reverse {
            c.hl.foreground
        } else {
            match c.hl.background {
                Some(b) => Some(b),
                None => Some(hls.spec_bg()),
            }
        },
    )
}

pub open spec fn run_style(r: StyleRun) -> (bool, bool, Option<Color>) {
    (r.italic, r.bold, r.foreground)
}

/// The text, the cell of each byte, the finished runs and the open run,
/// after the cells `cells` (a prefix of the row) are read. Cells that hold
/// the second half of a wide character are skipped.
pub open spec fn styled_state(cells: Seq<CellView>, hls: HighlightMap) -> (Seq<char>, Seq<int>, Seq<StyleRun>, Option<StyleRun>)
    decreases cells.len(),
{
    if cells.len() == 0 {
        (Seq::empty(), Seq::empty(), Seq::empty(), None)
    } else {
        let (t, m, done, cur) = styled_state(cells.drop_last(), hls);
        let c = cells.last();
        if c.double_width {
            (t, m, done, cur)
        } else {
            let off = encode_utf8(t).len() as int;
            let len = encode_utf8(c.ch).len() as int;
            let t2 = t + c.ch;
            let m2 = m + Seq::new(len as nat, |i: int| cells.len() - 1);
            let st = cell_style(c, hls);
            let new = StyleRun { italic: st.0, bold: st.1, foreground: st.2, start: off as usize, end: (off + len) as usize };
            match cur {
                None => (t2, m2, done, Some(new)),
                Some(r) => if run_style(r) == st {
                    (t2, m2, done, Some(StyleRun { end: (off + len) as usize, ..r }))
                } else {
                    (t2, m2, done.push(r), Some(new))
                },
            }
        }
    }
}

/// The runs of a row: the finished ones and the open one.
pub open spec fn styled_runs(cells: Seq<CellView>, hls: HighlightMap) -> Seq<StyleRun> {
    let (_, _, done, cur) = styled_state(cells, hls);
    match cur {
        Some(r) => done.push(r),
        None => done,
    }
}

/// A row as text to shape.
pub struct StyledLine {
    pub line_str: String,
    pub cell_to_byte: Vec<usize>,
    pub attrs: Vec<StyleRun>,
}

impl StyledLine {
    /// Reads the row: the characters of its cells, the cell each byte comes
    /// from, and the runs of bytes in one style.
    pub fn from(line: &Line, hls: &HighlightMap) -> (s: StyledLine)
        requires
            encode_utf8(styled_state(line.cells(), *hls).0).len() <= usize::MAX,
        ensures
            s.line_str@ == styled_state(line.cells(), *hls).0,
            s.cell_to_byte@.len() == styled_state(line.cells(), *hls).1.len(),
            forall|i: int| 0 <= i < s.cell_to_byte@.len() ==> s.cell_to_byte@[i] == #[trigger] styled_state(line.cells(), *hls).1[i],
            s.attrs@ == styled_runs(line.cells(), *hls),
    {
        let ghost cells = line.cells();
        let mut line_str = String::new();
        let mut cell_to_byte: Vec<usize> = Vec::new();
        let mut done: Vec<StyleRun> = Vec::new();
        let mut cur: Option<StyleRun> = None;
        let mut byte_offset: usize = 0;
        let mut idx: usize = 0;
        proof {
            assert(cells.take(0) =~= Seq::<CellView>::empty());
            assert(encode_utf8(Seq::<char>::empty()).len() == 0);
        }
        while idx < line.line.len()
            invariant
                idx <= line.line@.len(),
                cells == line.cells(),
                cells.len() == line.line@.len(),
                encode_utf8(styled_state(cells, *hls).0).len() <= usize::MAX,
                ({
                    let (t, m, d, c) = styled_state(cells.take(idx as int), *hls);
                    &&& line_str@ == t
                    &&& cell_to_byte@.len() == m.len()
                    &&& forall|i: int| 0 <= i < m.len() ==> cell_to_byte@[i] == #[trigger] m[i]
                    &&& done@ == d
                    &&& cur == c
                    &&& byte_offset == encode_utf8(t).len()
                }),
            decreases line.line@.len() - idx,
        {
            proof {
                assert(cells.take(idx + 1).drop_last() =~= cells.take(idx as int));
                assert(cells.take(idx + 1).last() == cells[idx as int]);
                assert(cells[idx as int] == line.line@[idx as int]@);
                lemma_text_prefix_bound(cells, *hls, idx + 1);
            }
            let cell = &line.line[idx];
            if !cell.double_width {
                let ghost t = line_str@;
                push_str(&mut line_str, cell.ch.as_str());
                let len = cell.ch.as_str().len();
                proof {
                    lemma_encode_concat(t, cell.ch@);
                    assert(len == encode_utf8(cell.ch@).len());
                }
                let ghost m_before = cell_to_byte@;
                let mut k: usize = 0;
                while k < len
                    invariant
                        k <= len,
                        cell_to_byte@.len() == m_before.len() + k,
                        forall|i: int| 0 <= i < m_before.len() ==> cell_to_byte@[i] == m_before[i],
                        forall|i: int| m_before.len() <= i < cell_to_byte@.len() ==> cell_to_byte@[i] == idx,
                    decreases len - k,
                {
                    cell_to_byte.push(idx);
                    k = k + 1;
                }
                let end = byte_offset + len;
                let italic = cell.hl.italic;
                let bold = cell.hl.bold;
                let foreground = hls.cell_fg(cell);
                let new = StyleRun { italic, bold, foreground, start: byte_offset, end };
                match cur {
                    None => {
                        cur = Some(new);
                    },
                    Some(r) => {
                        if r.italic == italic && r.bold == bold && r.foreground == foreground {
                            cur = Some(StyleRun { end, ..r });
                        } else {
                            done.push(r);
                            cur = Some(new);
                        }
                    },
                }
                byte_offset = end;
            }
            idx = idx + 1;
        }
        proof {
            assert(cells.take(idx as int) =~= cells);
        }
        match cur {
            Some(r) => done.push(r),
            None => {},
        }
        StyledLine { line_str, cell_to_byte, attrs: done }
    }
}

/// The text read from a prefix of the cells is no longer than that of all
/// of them.
proof fn lemma_text_prefix_bound(cells: Seq<CellView>, hls: HighlightMap, n: int)
    requires
        0 <= n <= cells.len(),
    ensures
        encode_utf8(styled_state(cells.take(n), hls).0).len() <= encode_utf8(styled_state(cells, hls).0).len(),
    decreases cells.len() - n,
{
    if n < cells.len() {
        lemma_text_prefix_bound(cells, hls, n + 1);
        let p = cells.take(n + 1);
        assert(p.drop_last() =~= cells.take(n));
        let t = styled_state(cells.take(n), hls).0;
        if !p.last().double_width {
            lemma_encode_concat(t, p.last().ch);
        }
    } else {
        assert(cells.take(n) =~= cells);
    }
}

} // verus!

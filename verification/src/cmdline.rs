//! The command line drawn outside neovim's grid: how its prompt and typed
//! text are laid out in cells, and its stack of levels and block of lines.
use vstd::prelude::*;
use vstd::string::StringSliceAdditionalSpecFns;

use crate::highlight::{spec_from_value_map, Highlight};
use crate::value::AttrsMap;
use crate::notify::split_newlines;
use crate::text::{from_chars, push_str, string_from, to_chars};

verus! {

/// What `UnicodeSegmentation::graphemes(s, true)` yields for `s`: its
/// extended grapheme clusters, in order.
pub uninterp spec fn grapheme_clusters(s: Seq<char>) -> Seq<Seq<char>>;

/// `unicode_segmentation::UnicodeSegmentation::graphemes` (extended): claimed
/// to give the clusters that `grapheme_clusters` names for `s`. The
/// segmentation rules of Unicode are not written out here.
#[verifier::external_body]
fn graphemes(s: &str) -> (r: Vec<String>)
    ensures
        r@.map_values(|g: String| g@) == grapheme_clusters(s@),
{
    unicode_segmentation::UnicodeSegmentation::graphemes(s, true).map(|g| g.to_owned()).collect()
}

/// `str::lines`: the pieces between `\n`s, each without one `\r` before its
/// `\n`; the piece after a final `\n` (or of an empty text) is no line.
pub open spec fn text_lines(s: Seq<char>) -> Seq<Seq<char>> {
    let pieces = split_newlines(s);
    let body = Seq::new(
        (pieces.len() - 1) as nat,
        |i: int|
            if pieces[i].len() > 0 && pieces[i].last() == '\r' {
                pieces[i].drop_last()
            } else {
                pieces[i]
            },
    );
    if pieces.last().len() == 0 {
        body
    } else {
        body.push(pieces.last())
    }
}

/// The prompt as rows of cells: the first character padded with spaces to
/// `indent` bytes, else the prompt's lines split into grapheme clusters.
pub open spec fn prompt_rows(firstc: Seq<char>, prompt: Seq<char>, indent: int) -> Seq<Seq<Seq<char>>> {
    let n = vstd::utf8::encode_utf8(firstc).len() as int;
    if firstc.len() > 0 {
        if n >= indent {
            seq![seq![firstc]]
        } else {
            seq![seq![firstc] + Seq::new((indent - n) as nat, |i: int| " "@)]
        }
    } else if prompt.len() > 0 {
        text_lines(prompt).map_values(|l: Seq<char>| grapheme_clusters(l))
    } else {
        Seq::empty()
    }
}

/// The rows of cells as plain values.
pub open spec fn rows_view(rows: Seq<(Option<Highlight>, Vec<String>)>) -> Seq<Seq<Seq<char>>> {
    rows.map_values(|r: (Option<Highlight>, Vec<String>)| r.1@.map_values(|c: String| c@))
}

/// The lines of `s`, as `str::lines` gives them.
pub fn split_lines(s: &str) -> (r: Vec<String>)
    ensures
        r@.map_values(|l: String| l@) == text_lines(s@),
{
    let chars = to_chars(s);
    let mut pieces: Vec<Vec<char>> = Vec::new();
    let mut cur: Vec<char> = Vec::new();
    let mut i: usize = 0;
    proof {
        assert(chars@.take(0) =~= Seq::<char>::empty());
    }
    while i < chars.len()
        invariant
            i <= chars@.len(),
            chars@ == s@,
            pieces@.len() + 1 == split_newlines(chars@.take(i as int)).len(),
            forall|k: int| 0 <= k < pieces@.len() ==> (#[trigger] pieces@[k])@ == split_newlines(chars@.take(i as int))[k],
            cur@ == split_newlines(chars@.take(i as int)).last(),
        decreases chars@.len() - i,
    {
        let ghost t = chars@.take(i as int);
        proof {
            assert(chars@.take(i + 1).drop_last() =~= t);
            assert(chars@.take(i + 1).last() == chars@[i as int]);
            crate::notify::lemma_split_newlines_nonempty(t);
        }
        if chars[i] == '\n' {
            let mut done: Vec<char> = Vec::new();
            std::mem::swap(&mut done, &mut cur);
            pieces.push(done);
            proof {
                assert(cur@ =~= Seq::<char>::empty());
            }
        } else {
            cur.push(chars[i]);
        }
        i = i + 1;
    }
    proof {
        assert(chars@.take(i as int) =~= chars@);
    }
    let ghost pv = split_newlines(s@);
    let mut out: Vec<String> = Vec::new();
    let mut k: usize = 0;
    while k < pieces.len()
        invariant
            k <= pieces@.len(),
            pieces@.len() + 1 == pv.len(),
            forall|j: int| 0 <= j < pieces@.len() ==> (#[trigger] pieces@[j])@ == pv[j],
            out@.len() == k,
            forall|j: int| 0 <= j < k ==> (#[trigger] out@[j])@ == (if pv[j].len() > 0 && pv[j].last() == '\r' {
                pv[j].drop_last()
            } else {
                pv[j]
            }),
        decreases pieces@.len() - k,
    {
        let p = &pieces[k];
        let n = p.len();
        let line = if n > 0 && p[n - 1] == '\r' {
            let t = crate::plug_store::slice_chars(p, 0, n - 1);
            proof {
                assert(t@ =~= pv[k as int].drop_last());
            }
            from_chars(&t)
        } else {
            from_chars(p)
        };
        out.push(line);
        k = k + 1;
    }
    if cur.len() > 0 {
        out.push(from_chars(&cur));
    }
    proof {
        assert(out@.map_values(|l: String| l@) =~= text_lines(s@));
    }
    out
}

/// The prompt rows of the command line and the width of the last one, in
/// cells: the first character `firstc` padded with spaces to `indent` bytes,
/// else the `prompt` text's lines split into grapheme clusters.
pub fn prompt_lines(firstc: &str, prompt: &str, indent: u64) -> (r: (usize, Vec<(Option<Highlight>, Vec<String>)>))
    requires
        indent <= usize::MAX,
        firstc.spec_bytes().len() <= usize::MAX,
    ensures
        rows_view(r.1@) == prompt_rows(firstc@, prompt@, indent as int),
        forall|i: int| 0 <= i < r.1@.len() ==> (#[trigger] r.1@[i]).0 is None,
        r.0 == (if r.1@.len() == 0 { 0 } else { r.1@.last().1@.len() }),
{
    let mut rows: Vec<(Option<Highlight>, Vec<String>)> = Vec::new();
    let width = indent as usize;
    if firstc.unicode_len() > 0 {
        let n = firstc.len();
        let mut cells: Vec<String> = Vec::new();
        cells.push(string_from(firstc));
        if n < width {
            let mut j = n;
            while j < width
                invariant
                    n <= j <= width,
                    cells@.len() == 1 + j - n,
                    cells@[0]@ == firstc@,
                    forall|q: int| 1 <= q < cells@.len() ==> (#[trigger] cells@[q])@ == " "@,
                decreases width - j,
            {
                cells.push(string_from(" "));
                j = j + 1;
            }
        }
        let ghost cv = cells@.map_values(|c: String| c@);
        proof {
            if n >= width {
                assert(cv =~= seq![firstc@]);
            } else {
                assert(cv =~= seq![firstc@] + Seq::new((width - n) as nat, |i: int| " "@));
            }
        }
        rows.push((None, cells));
        proof {
            assert(rows_view(rows@) =~= seq![cv]);
            assert(n == firstc.spec_bytes().len());
            assert(rows_view(rows@) == prompt_rows(firstc@, prompt@, indent as int));
        }
    } else if prompt.unicode_len() > 0 {
        let lines = split_lines(prompt);
        let mut k: usize = 0;
        while k < lines.len()
            invariant
                k <= lines@.len(),
                lines@.map_values(|l: String| l@) == text_lines(prompt@),
                rows@.len() == k,
                forall|j: int| 0 <= j < k ==> (#[trigger] rows@[j]).0 is None && rows@[j].1@.map_values(|c: String| c@)
                    == grapheme_clusters(lines@[j]@),
            decreases lines@.len() - k,
        {
            let g = graphemes(lines[k].as_str());
            rows.push((None, g));
            k = k + 1;
        }
        proof {
            assert(rows_view(rows@) =~= text_lines(prompt@).map_values(|l: Seq<char>| grapheme_clusters(l)));
        }
    } else {
        proof {
            assert(rows_view(rows@) =~= Seq::<Seq<Seq<char>>>::empty());
        }
    }
    let offset = if rows.len() == 0 {
        0
    } else {
        rows[rows.len() - 1].1.len()
    };
    (offset, rows)
}


/// A chunk of the command line's text as cells: the highlight its attributes
/// give, and its grapheme clusters.
pub open spec fn chunk_cells<'a>(chunk: (AttrsMap<'a>, String)) -> (Option<Highlight>, Seq<Seq<char>>) {
    (Some(spec_from_value_map(chunk.0)), grapheme_clusters(chunk.1@))
}

/// Chunks of cells as plain values.
pub open spec fn chunks_view(chunks: Seq<(Option<Highlight>, Vec<String>)>) -> Seq<(Option<Highlight>, Seq<Seq<char>>)> {
    chunks.map_values(|c: (Option<Highlight>, Vec<String>)| (c.0, c.1@.map_values(|g: String| g@)))
}

/// Lines of chunks as plain values.
pub open spec fn lines_view(lines: Seq<Vec<(Option<Highlight>, Vec<String>)>>) -> Seq<Seq<(Option<Highlight>, Seq<Seq<char>>)>> {
    lines.map_values(|l: Vec<(Option<Highlight>, Vec<String>)>| chunks_view(l@))
}

/// The lines the command line shows: each prompt row a line of its own, the
/// typed content appended to the last of them (or a line of its own when there
/// is no prompt row).
pub open spec fn content_lines<'a>(
    content: Seq<(AttrsMap<'a>, String)>,
    firstc: Seq<char>,
    prompt: Seq<char>,
    indent: int,
) -> Seq<Seq<(Option<Highlight>, Seq<Seq<char>>)>> {
    lines_with_typed(prompt_rows(firstc, prompt, indent), content.map_values(|c: (AttrsMap<'a>, String)| chunk_cells(c)))
}

/// Each prompt row a line of its own, the typed chunks appended to the last
/// of them (or a line of their own when there is no prompt row).
pub open spec fn lines_with_typed(
    rows: Seq<Seq<Seq<char>>>,
    typed: Seq<(Option<Highlight>, Seq<Seq<char>>)>,
) -> Seq<Seq<(Option<Highlight>, Seq<Seq<char>>)>> {
    if rows.len() == 0 {
        seq![typed]
    } else {
        Seq::new(
            rows.len(),
            |i: int|
                if i < rows.len() - 1 {
                    seq![(None::<Highlight>, rows[i])]
                } else {
                    seq![(None::<Highlight>, rows[i])] + typed
                },
        )
    }
}

/// One line of highlighted chunks as cells: each chunk's attributes read as a
/// highlight, its text split into grapheme clusters.
pub fn attributed_line(content: &Vec<(AttrsMap, String)>) -> (r: Vec<(Option<Highlight>, Vec<String>)>)
    ensures
        chunks_view(r@) == content@.map_values(|c: (AttrsMap, String)| chunk_cells(c)),
{
    let mut out: Vec<(Option<Highlight>, Vec<String>)> = Vec::new();
    let mut i: usize = 0;
    while i < content.len()
        invariant
            i <= content@.len(),
            out@.len() == i,
            forall|j: int| 0 <= j < i ==> (#[trigger] out@[j]).0 == chunk_cells(content@[j]).0
                && out@[j].1@.map_values(|g: String| g@) == chunk_cells(content@[j]).1,
        decreases content@.len() - i,
    {
        let hl = Highlight::from_value_map(&content[i].0);
        let cells = graphemes(content[i].1.as_str());
        out.push((Some(hl), cells));
        i = i + 1;
    }
    proof {
        assert(chunks_view(out@) =~= content@.map_values(|c: (AttrsMap, String)| chunk_cells(c)));
    }
    out
}

/// Several lines of highlighted chunks as cells.
pub fn attributed_lines(content: &Vec<Vec<(AttrsMap, String)>>) -> (r: Vec<Vec<(Option<Highlight>, Vec<String>)>>)
    ensures
        r@.len() == content@.len(),
        forall|i: int| 0 <= i < r@.len() ==> chunks_view((#[trigger] r@[i])@)
            == content@[i]@.map_values(|c: (AttrsMap, String)| chunk_cells(c)),
{
    let mut out: Vec<Vec<(Option<Highlight>, Vec<String>)>> = Vec::new();
    let mut i: usize = 0;
    while i < content.len()
        invariant
            i <= content@.len(),
            out@.len() == i,
            forall|j: int| 0 <= j < i ==> chunks_view((#[trigger] out@[j])@)
                == content@[j]@.map_values(|c: (AttrsMap, String)| chunk_cells(c)),
        decreases content@.len() - i,
    {
        let line = attributed_line(&content[i]);
        out.push(line);
        i = i + 1;
    }
    out
}

/// The lines the command line shows, and the width of the prompt in cells
/// (where the typed text starts): each prompt row a line of its own, the typed
/// `content` appended to the last of them.
pub fn line_content(content: &Vec<(AttrsMap, String)>, firstc: &str, prompt: &str, indent: u64) -> (r: (
    Vec<Vec<(Option<Highlight>, Vec<String>)>>,
    usize,
))
    requires
        indent <= usize::MAX,
        firstc.spec_bytes().len() <= usize::MAX,
    ensures
        lines_view(r.0@) == content_lines(content@, firstc@, prompt@, indent as int),
        r.1 == (if prompt_rows(firstc@, prompt@, indent as int).len() == 0 {
            0
        } else {
            prompt_rows(firstc@, prompt@, indent as int).last().len()
        }),
{
    let mut typed = attributed_line(content);
    let ghost tv = chunks_view(typed@);
    let (offset, mut rows) = prompt_lines(firstc, prompt, indent);
    let ghost rows0 = rows@;
    let ghost pr = prompt_rows(firstc@, prompt@, indent as int);
    proof {
        assert(rows_view(rows0) == pr);
        assert(rows0.len() == pr.len());
        if rows0.len() > 0 {
            assert(rows_view(rows0)[rows0.len() - 1] == rows0.last().1@.map_values(|c: String| c@));
        }
    }
    let n = rows.len();
    let mut lines: Vec<Vec<(Option<Highlight>, Vec<String>)>> = Vec::new();
    if n == 0 {
        lines.push(typed);
        proof {
            assert(lines_view(lines@) =~= content_lines(content@, firstc@, prompt@, indent as int));
        }
        return (lines, offset);
    }
    let mut k: usize = 0;
    while k < n
        invariant
            n == rows0.len(),
            n > 0,
            k <= n,
            rows@ == rows0.skip(k as int),
            k < n ==> chunks_view(typed@) == tv,
            lines@.len() == k,
            forall|j: int| 0 <= j < rows0.len() ==> (#[trigger] rows0[j]).0 is None,
            forall|j: int| 0 <= j < k ==> chunks_view((#[trigger] lines@[j])@) == (if j < n - 1 {
                seq![(None::<Highlight>, rows_view(rows0)[j])]
            } else {
                seq![(None::<Highlight>, rows_view(rows0)[j])] + tv
            }),
        decreases n - k,
    {
        let row = rows.remove(0);
        proof {
            assert(row == rows0[k as int]);
            assert(rows@ =~= rows0.skip(k + 1));
        }
        let mut line: Vec<(Option<Highlight>, Vec<String>)> = Vec::new();
        line.push(row);
        if k + 1 == n {
            line.append(&mut typed);
            proof {
                assert(chunks_view(line@) =~= seq![(None::<Highlight>, rows_view(rows0)[k as int])] + tv);
            }
        } else {
            proof {
                assert(chunks_view(line@) =~= seq![(None::<Highlight>, rows_view(rows0)[k as int])]);
            }
        }
        lines.push(line);
        k = k + 1;
    }
    proof {
        assert(lines_view(lines@) =~= content_lines(content@, firstc@, prompt@, indent as int));
    }
    (lines, offset)
}


/// A level of the command line (a nested one opens, e.g., with `<C-r>=`):
/// its lines, the width of its prompt, and the cursor's place in the typed text.
pub struct CmdlineLevel {
    pub lines: Vec<Vec<(Option<Highlight>, Vec<String>)>>,
    pub prompt_offset: usize,
    pub pos: u64,
}

/// A level as plain values.
pub struct LevelView {
    pub lines: Seq<Seq<(Option<Highlight>, Seq<Seq<char>>)>>,
    pub prompt_offset: int,
    pub pos: int,
}

impl View for CmdlineLevel {
    type V = LevelView;

    open spec fn view(&self) -> LevelView {
        LevelView { lines: lines_view(self.lines@), prompt_offset: self.prompt_offset as int, pos: self.pos as int }
    }
}

/// The levels as plain values.
pub open spec fn levels_view(levels: Seq<CmdlineLevel>) -> Seq<LevelView> {
    levels.map_values(|l: CmdlineLevel| l@)
}

/// The levels after level `level_idx` is shown as `level`: it replaces the
/// last one when `level_idx` is their number, else it goes on top.
pub open spec fn shown_levels(levels: Seq<LevelView>, level_idx: int, level: LevelView) -> Seq<LevelView> {
    if level_idx == levels.len() {
        levels.update(levels.len() - 1, level)
    } else {
        levels.push(level)
    }
}

/// The levels after level `level_idx` is hidden: the top one goes when it is
/// that level.
pub open spec fn hidden_levels(levels: Seq<LevelView>, level_idx: int) -> Seq<LevelView> {
    if level_idx == levels.len() && levels.len() > 0 {
        levels.drop_last()
    } else {
        levels
    }
}

/// The command line shown outside neovim's grid: its stack of levels, the
/// block of lines above them (a function being typed), and whether it is on
/// screen.
pub struct CmdLine {
    pub levels: Vec<CmdlineLevel>,
    pub block: Option<Vec<Vec<(Option<Highlight>, Vec<String>)>>>,
    pub displayed: bool,
}

impl CmdLine {
    pub fn new() -> (c: CmdLine)
        ensures
            c.levels@.len() == 0,
            c.block is None,
            !c.displayed,
    {
        CmdLine { levels: Vec::new(), block: None, displayed: false }
    }

    /// Shows level `level_idx` with the typed `content` after the prompt
    /// (`firstc`, else `prompt`) and the cursor at `pos` in the typed text.
    /// Returns whether the command line came on screen with this call.
    pub fn show_level(
        &mut self,
        content: &Vec<(AttrsMap, String)>,
        firstc: &str,
        prompt: &str,
        indent: u64,
        pos: u64,
        level_idx: u64,
    ) -> (appeared: bool)
        requires
            indent <= usize::MAX,
            firstc.spec_bytes().len() <= usize::MAX,
            !(level_idx == 0 && old(self).levels@.len() == 0),
        ensures
            levels_view(final(self).levels@) == shown_levels(
                levels_view(old(self).levels@),
                level_idx as int,
                LevelView {
                    lines: content_lines(content@, firstc@, prompt@, indent as int),
                    prompt_offset: (if prompt_rows(firstc@, prompt@, indent as int).len() == 0 {
                        0
                    } else {
                        prompt_rows(firstc@, prompt@, indent as int).last().len() as int
                    }),
                    pos: pos as int,
                },
            ),
            final(self).block == old(self).block,
            final(self).displayed,
            appeared == !old(self).displayed,
    {
        let (lines, prompt_offset) = line_content(content, firstc, prompt, indent);
        let level = CmdlineLevel { lines, prompt_offset, pos };
        let ghost lv = level@;
        let n = self.levels.len();
        if level_idx == n as u64 {
            let last = n - 1;
            self.levels.set(last, level);
        } else {
            self.levels.push(level);
        }
        proof {
            assert(levels_view(self.levels@) =~= shown_levels(levels_view(old(self).levels@), level_idx as int, lv));
        }
        if !self.displayed {
            self.displayed = true;
            true
        } else {
            false
        }
    }

    /// Moves the cursor of level `level` (counted from one) to `pos` in its
    /// typed text; a level that is not there is left alone.
    pub fn pos(&mut self, pos: u64, level: u64)
        requires
            level > 0,
        ensures
            final(self).levels@.len() == old(self).levels@.len(),
            forall|i: int| 0 <= i < old(self).levels@.len() ==> (#[trigger] final(self).levels@[i])@ == (if i
                == level - 1 {
                LevelView { pos: pos as int, ..old(self).levels@[i]@ }
            } else {
                old(self).levels@[i]@
            }),
            final(self).block == old(self).block,
            final(self).displayed == old(self).displayed,
    {
        let idx = level - 1;
        if idx < self.levels.len() as u64 {
            let i = idx as usize;
            self.levels[i].pos = pos;
        }
    }

    /// Hides level `level_idx`: the top level goes when it is that one.
    /// Returns whether the command line left the screen (no level is left).
    pub fn hide_level(&mut self, level_idx: u64) -> (gone: bool)
        ensures
            levels_view(final(self).levels@) == hidden_levels(levels_view(old(self).levels@), level_idx as int),
            gone == (final(self).levels@.len() == 0),
            final(self).displayed == (old(self).displayed && !gone),
            final(self).block == old(self).block,
    {
        if level_idx == self.levels.len() as u64 {
            self.levels.pop();
        }
        proof {
            assert(levels_view(self.levels@) =~= hidden_levels(levels_view(old(self).levels@), level_idx as int));
        }
        if self.levels.len() == 0 {
            self.displayed = false;
            true
        } else {
            false
        }
    }

    /// Shows the block of lines above the levels.
    pub fn show_block(&mut self, content: &Vec<Vec<(AttrsMap, String)>>)
        ensures
            final(self).block matches Some(b) && b@.len() == content@.len() && forall|i: int|
                0 <= i < b@.len() ==> chunks_view((#[trigger] b@[i])@) == content@[i]@.map_values(
                    |c: (AttrsMap, String)| chunk_cells(c),
                ),
            levels_view(final(self).levels@) == levels_view(old(self).levels@),
            final(self).displayed == old(self).displayed,
    {
        self.block = Some(attributed_lines(content));
    }

    /// Adds a line to the block.
    pub fn block_append(&mut self, content: &Vec<(AttrsMap, String)>)
        requires
            old(self).block is Some,
        ensures
            final(self).block matches Some(b) && lines_view(b@) == lines_view(old(self).block->0@).push(
                content@.map_values(|c: (AttrsMap, String)| chunk_cells(c)),
            ),
            levels_view(final(self).levels@) == levels_view(old(self).levels@),
            final(self).displayed == old(self).displayed,
    {
        let line = attributed_line(content);
        match self.block.as_mut() {
            Some(b) => {
                let ghost before = lines_view(b@);
                b.push(line);
                proof {
                    assert(lines_view(b@) =~= before.push(content@.map_values(|c: (AttrsMap, String)| chunk_cells(c))));
                }
            },
            None => {},
        }
    }

    /// Hides the block.
    pub fn block_hide(&mut self)
        ensures
            final(self).block is None,
            levels_view(final(self).levels@) == levels_view(old(self).levels@),
            final(self).displayed == old(self).displayed,
    {
        self.block = None;
    }
}

/// Showing a new level on top and then hiding it gives back the levels
/// there were.
pub proof fn law_show_then_hide_level(levels: Seq<LevelView>, level: LevelView)
    ensures
        hidden_levels(shown_levels(levels, levels.len() + 1int, level), levels.len() + 1int) == levels,
{
    assert(hidden_levels(shown_levels(levels, levels.len() + 1int, level), levels.len() + 1int) =~= levels);
}

} // verus!

//! The completion menu's scrolling and the widths of its columns.
use vstd::prelude::*;
use vstd::string::StringSliceAdditionalSpecFns;

use crate::redraw::CompleteItem;

verus! {

/// How many rows the menu scrolls to go from the selected row to the target
/// row (from the top, where nothing is selected).
pub fn find_scroll_count(selected_idx: i32, target_idx: i32) -> (r: i32)
    requires
        selected_idx < 0 ==> target_idx < i32::MAX,
        selected_idx >= 0 && target_idx > selected_idx ==> target_idx - selected_idx <= i32::MAX,
        selected_idx >= 0 && target_idx <= selected_idx ==> selected_idx - target_idx <= i32::MAX,
    ensures
        r == (if selected_idx < 0 {
            target_idx + 1
        } else if target_idx > selected_idx {
            target_idx - selected_idx
        } else {
            selected_idx - target_idx
        }),
{
    if selected_idx < 0 {
        target_idx + 1
    } else if target_idx > selected_idx {
        target_idx - selected_idx
    } else {
        selected_idx - target_idx
    }
}


/// Padding each column gets on top of its renderer's own, in pixels.
pub const DEFAULT_PADDING: i32 = 5;

/// The index `Iterator::max_by_key` picks for these keys: the last of those
/// with the greatest key.
pub open spec fn last_max_index(keys: Seq<int>) -> int
    decreases keys.len(),
{
    if keys.len() <= 1 {
        0
    } else {
        let p = last_max_index(keys.drop_last());
        if keys.last() >= keys[p] {
            keys.len() - 1
        } else {
            p
        }
    }
}

proof fn lemma_last_max_index(keys: Seq<int>)
    requires
        keys.len() > 0,
    ensures
        0 <= last_max_index(keys) < keys.len(),
        forall|i: int| 0 <= i < keys.len() ==> #[trigger] keys[i] <= keys[last_max_index(keys)],
    decreases keys.len(),
{
    if keys.len() > 1 {
        let d = keys.drop_last();
        lemma_last_max_index(d);
        assert forall|i: int| 0 <= i < keys.len() - 1 implies #[trigger] keys[i] == d[i] by {}
    }
}

/// The byte lengths of the entries' words.
pub open spec fn word_lens<'a>(items: Seq<CompleteItem<'a>>) -> Seq<int> {
    items.map_values(|c: CompleteItem<'a>| c.word.len() as int)
}

/// The byte lengths of the entries' menu texts.
pub open spec fn menu_lens<'a>(items: Seq<CompleteItem<'a>>) -> Seq<int> {
    items.map_values(|c: CompleteItem<'a>| c.menu.len() as int)
}

fn last_longest(lens: &Vec<usize>) -> (r: usize)
    requires
        lens@.len() > 0,
    ensures
        r == last_max_index(lens@.map_values(|n: usize| n as int)),
{
    let ghost keys = lens@.map_values(|n: usize| n as int);
    let mut best: usize = 0;
    let mut i: usize = 1;
    proof {
        assert(keys.take(1).len() == 1);
    }
    while i < lens.len()
        invariant
            1 <= i <= lens@.len(),
            keys == lens@.map_values(|n: usize| n as int),
            best == last_max_index(keys.take(i as int)),
        decreases lens@.len() - i,
    {
        proof {
            assert(keys.take(i + 1).drop_last() =~= keys.take(i as int));
            lemma_last_max_index(keys.take(i as int));
            assert(keys.take(i as int)[best as int] == keys[best as int]);
        }
        if lens[i] >= lens[best] {
            best = i;
        }
        i = i + 1;
    }
    proof {
        assert(keys.take(i as int) =~= keys);
    }
    best
}

/// The entry whose word is the longest (the last such), which the word
/// column is measured by.
pub fn longest_word(items: &Vec<CompleteItem>) -> (r: usize)
    requires
        items@.len() > 0,
    ensures
        r == last_max_index(word_lens(items@)),
{
    let mut lens: Vec<usize> = Vec::new();
    let mut i: usize = 0;
    while i < items.len()
        invariant
            i <= items@.len(),
            lens@.len() == i,
            forall|j: int| 0 <= j < i ==> (#[trigger] lens@[j]) == items@[j].word.len(),
        decreases items@.len() - i,
    {
        lens.push(items[i].word.len());
        i = i + 1;
    }
    proof {
        assert(lens@.map_values(|n: usize| n as int) =~= word_lens(items@));
    }
    last_longest(&lens)
}

/// The entry whose menu text is the longest (the last such), which the menu
/// column is measured by.
pub fn longest_menu(items: &Vec<CompleteItem>) -> (r: usize)
    requires
        items@.len() > 0,
    ensures
        r == last_max_index(menu_lens(items@)),
{
    let mut lens: Vec<usize> = Vec::new();
    let mut i: usize = 0;
    while i < items.len()
        invariant
            i <= items@.len(),
            lens@.len() == i,
            forall|j: int| 0 <= j < i ==> (#[trigger] lens@[j]) == items@[j].menu.len(),
        decreases items@.len() - i,
    {
        lens.push(items[i].menu.len());
        i = i + 1;
    }
    proof {
        assert(lens@.map_values(|n: usize| n as int) =~= menu_lens(items@));
    }
    last_longest(&lens)
}

/// Whether some entry has a kind, so that the kind column shows.
pub fn kind_exists(items: &Vec<CompleteItem>) -> (r: bool)
    ensures
        r == exists|i: int| 0 <= i < items@.len() && (#[trigger] items@[i]).kind@.len() > 0,
{
    let mut i: usize = 0;
    while i < items.len()
        invariant
            i <= items@.len(),
            forall|j: int| 0 <= j < i ==> (#[trigger] items@[j]).kind@.len() == 0,
        decreases items@.len() - i,
    {
        if !items[i].kind.is_empty() {
            return true;
        }
        i = i + 1;
    }
    false
}

/// The widths of the menu's columns, in pixels; `None` for a hidden column.
#[derive(Clone, Copy, PartialEq, Eq, Structural, Debug)]
pub struct ColumnWidths {
    pub kind: Option<i32>,
    pub word: i32,
    pub menu: Option<i32>,
}

/// A column fitting text `width` pixels wide, with the renderer's padding
/// `xpad` on both sides and the default padding.
pub open spec fn padded(width: int, xpad: int) -> int {
    width + xpad * 2 + DEFAULT_PADDING
}

/// The widths of the columns, from the measured widths of the longest word,
/// of the kind marker `[v]` and of the longest menu text (`None` when that
/// text is empty): the kind column shows only where some entry has a kind,
/// and the word column takes the room left of `max_width`, up to what its
/// longest word needs.
pub fn column_widths(
    kind_exists: bool,
    max_width: i32,
    xpad: i32,
    word_width: i32,
    kind_width: i32,
    menu_width: Option<i32>,
) -> (r: ColumnWidths)
    requires
        0 <= xpad,
        0 <= word_width,
        0 <= kind_width,
        menu_width matches Some(m) ==> 0 <= m,
        padded(word_width as int, xpad as int) <= i32::MAX,
        kind_exists ==> padded(kind_width as int, xpad as int) <= i32::MAX,
        kind_exists ==> i32::MIN <= max_width - kind_width,
        menu_width matches Some(m) ==> padded(m as int, xpad as int) <= i32::MAX,
    ensures
        r.kind == (if kind_exists { Some(padded(kind_width as int, xpad as int) as i32) } else { None }),
        r.word == (if kind_exists {
            if max_width - kind_width <= padded(word_width as int, xpad as int) {
                max_width - kind_width
            } else {
                padded(word_width as int, xpad as int)
            }
        } else {
            if max_width <= padded(word_width as int, xpad as int) {
                max_width as int
            } else {
                padded(word_width as int, xpad as int)
            }
        }),
        r.menu == (match menu_width {
            Some(m) => Some(padded(m as int, xpad as int) as i32),
            None => None,
        }),
{
    let word_column_width = word_width + xpad * 2 + DEFAULT_PADDING;
    let (kind, word) = if kind_exists {
        let room = max_width - kind_width;
        (Some(kind_width + xpad * 2 + DEFAULT_PADDING), if room <= word_column_width { room } else { word_column_width })
    } else {
        (None, if max_width <= word_column_width { max_width } else { word_column_width })
    };
    let menu = match menu_width {
        Some(m) => Some(m + xpad * 2 + DEFAULT_PADDING),
        None => None,
    };
    ColumnWidths { kind, word, menu }
}

} // verus!

//! Splitting a line of text into items: runs of ASCII non-space characters,
//! and single non-ASCII characters, each with its byte offset and length.
use vstd::prelude::*;
use vstd::string::StringSliceAdditionalSpecFns;
use vstd::utf8::{encode_scalar, encode_utf8};

use crate::text::to_chars;

verus! {

/// `char::is_whitespace`: the Unicode `White_Space` characters.
pub open spec fn spec_is_whitespace(c: char) -> bool {
    let u = c as u32;
    ||| 0x9 <= u <= 0xD
    ||| u == 0x20
    ||| u == 0x85
    ||| u == 0xA0
    ||| u == 0x1680
    ||| 0x2000 <= u <= 0x200A
    ||| u == 0x2028
    ||| u == 0x2029
    ||| u == 0x202F
    ||| u == 0x205F
    ||| u == 0x3000
}

pub fn is_whitespace(c: char) -> (r: bool)
    ensures
        r == spec_is_whitespace(c),
{
    let u = c as u32;
    (0x9 <= u && u <= 0xD) || u == 0x20 || u == 0x85 || u == 0xA0 || u == 0x1680 || (0x2000 <= u
        && u <= 0x200A) || u == 0x2028 || u == 0x2029 || u == 0x202F || u == 0x205F || u == 0x3000
}

pub open spec fn spec_is_ascii(c: char) -> bool {
    (c as u32) < 0x80
}

/// Number of bytes of the UTF-8 encoding of `c`.
pub fn len_utf8(c: char) -> (n: usize)
    ensures
        n == encode_scalar(c as u32).len(),
{
    let u = c as u32;
    proof {
        vstd::utf8::char_is_scalar(c);
    }
    if u <= 0x7F {
        1
    } else if u <= 0x7FF {
        2
    } else if u <= 0xFFFF {
        3
    } else {
        4
    }
}

/// Byte offset of the character at index `i`.
pub open spec fn byte_at(chars: Seq<char>, i: int) -> int {
    encode_utf8(chars.take(i)).len() as int
}

/// First index from `pos` on that holds no whitespace, or the length.
pub open spec fn skip_space(chars: Seq<char>, pos: int) -> int
    decreases chars.len() - pos,
{
    if pos >= chars.len() {
        chars.len() as int
    } else if !spec_is_whitespace(chars[pos]) {
        pos
    } else {
        skip_space(chars, pos + 1)
    }
}

/// First index from `pos` on that holds whitespace or a non-ASCII character, or the length.
pub open spec fn word_end(chars: Seq<char>, pos: int) -> int
    decreases chars.len() - pos,
{
    if pos >= chars.len() {
        chars.len() as int
    } else if spec_is_whitespace(chars[pos]) || !spec_is_ascii(chars[pos]) {
        pos
    } else {
        word_end(chars, pos + 1)
    }
}

/// The next item from character index `pos` on, as character indices `(start, end)`.
pub open spec fn next_item(chars: Seq<char>, pos: int) -> Option<(int, int)> {
    let s = skip_space(chars, pos);
    if s >= chars.len() {
        None
    } else if !spec_is_ascii(chars[s]) {
        Some((s, s + 1))
    } else {
        Some((s, word_end(chars, s + 1)))
    }
}

/// The UTF-8 encoding of a concatenation is the concatenation of the encodings.
pub proof fn lemma_encode_concat(a: Seq<char>, b: Seq<char>)
    ensures
        encode_utf8(a + b) == encode_utf8(a) + encode_utf8(b),
    decreases a.len(),
{
    if a.len() == 0 {
        assert(a + b =~= b);
        assert(encode_utf8(a) =~= Seq::<u8>::empty());
        assert(encode_utf8(b) =~= encode_utf8(a) + encode_utf8(b));
    } else {
        lemma_encode_concat(a.drop_first(), b);
        assert((a + b).drop_first() =~= a.drop_first() + b);
        assert((a + b)[0] == a[0]);
        assert(encode_utf8(a + b) =~= encode_scalar(a[0] as u32) + encode_utf8(a.drop_first() + b));
    }
}

/// The byte offset of index `i + 1` is that of `i` plus the width of character `i`,
/// and offsets never pass the encoded length.
pub proof fn lemma_byte_step(chars: Seq<char>, i: int)
    requires
        0 <= i < chars.len(),
    ensures
        byte_at(chars, i + 1) == byte_at(chars, i) + encode_scalar(chars[i] as u32).len(),
        byte_at(chars, i + 1) <= encode_utf8(chars).len(),
{
    let t = chars.take(i + 1);
    assert(t =~= chars.take(i) + seq![chars[i]]);
    lemma_encode_concat(chars.take(i), seq![chars[i]]);
    assert(seq![chars[i]].drop_first() =~= Seq::<char>::empty());
    assert(encode_utf8(seq![chars[i]]) =~= encode_scalar(chars[i] as u32) + encode_utf8(Seq::<char>::empty()));
    assert(chars =~= t + chars.skip(i + 1));
    lemma_encode_concat(t, chars.skip(i + 1));
}

/// Walks a line and yields its items.
pub struct ItemizeIterator {
    pub chars: Vec<char>,
    pub line_len: usize,
    pub pos: usize,
    pub byte_offset: usize,
}

impl ItemizeIterator {
    /// The cursor of the walk is consistent with the line.
    pub open spec fn well_formed(&self) -> bool {
        &&& self.pos <= self.chars@.len()
        &&& self.byte_offset == byte_at(self.chars@, self.pos as int)
        &&& encode_utf8(self.chars@).len() == self.line_len
    }

    pub fn new(line: &str) -> (it: Self)
        requires
            line.spec_bytes().len() <= usize::MAX,
        ensures
            it.well_formed(),
            it.chars@ == line@,
            it.pos == 0,
    {
        let chars = to_chars(line);
        let line_len = line.len();
        proof {
            assert(chars@.take(0) =~= Seq::<char>::empty());
            assert(encode_utf8(Seq::<char>::empty()).len() == 0);
            assert(line_len == line.spec_bytes().len());
            assert(line.spec_bytes() == encode_utf8(line@));
        }
        ItemizeIterator { chars, line_len, pos: 0, byte_offset: 0 }
    }

    /// The next item, as `(byte offset, byte length)`.
    pub fn next(&mut self) -> (r: Option<(usize, usize)>)
        requires
            old(self).well_formed(),
        ensures
            final(self).well_formed(),
            final(self).chars@ == old(self).chars@,
            match next_item(old(self).chars@, old(self).pos as int) {
                None => r is None && final(self).pos == old(self).chars@.len(),
                Some((s, e)) => {
                    &&& r == Some((byte_at(old(self).chars@, s) as usize, (byte_at(old(self).chars@, e) - byte_at(old(self).chars@, s)) as usize))
                    &&& final(self).pos == e
                }
            },
    {
        let ghost chars = self.chars@;
        // skip whitespace
        while self.pos < self.chars.len() && is_whitespace(self.chars[self.pos])
            invariant
                self.well_formed(),
                self.chars@ == chars,
                skip_space(chars, old(self).pos as int) == skip_space(chars, self.pos as int),
            decreases chars.len() - self.pos,
        {
            proof {
                lemma_byte_step(chars, self.pos as int);
            }
            self.byte_offset = self.byte_offset + len_utf8(self.chars[self.pos]);
            self.pos = self.pos + 1;
        }
        if self.pos >= self.chars.len() {
            return None;
        }
        let start = self.pos;
        let start_byte = self.byte_offset;
        let first = self.chars[self.pos];
        proof {
            lemma_byte_step(chars, self.pos as int);
        }
        self.byte_offset = self.byte_offset + len_utf8(first);
        self.pos = self.pos + 1;
        if first as u32 >= 0x80 {
            return Some((start_byte, self.byte_offset - start_byte));
        }
        while self.pos < self.chars.len() && !is_whitespace(self.chars[self.pos])
            && (self.chars[self.pos] as u32) < 0x80
            invariant
                self.well_formed(),
                self.chars@ == chars,
                start < self.pos,
                start_byte == byte_at(chars, start as int),
                start_byte <= self.byte_offset,
                word_end(chars, start + 1) == word_end(chars, self.pos as int),
            decreases chars.len() - self.pos,
        {
            proof {
                lemma_byte_step(chars, self.pos as int);
            }
            self.byte_offset = self.byte_offset + len_utf8(self.chars[self.pos]);
            self.pos = self.pos + 1;
        }
        Some((start_byte, self.byte_offset - start_byte))
    }
}


proof fn lemma_skip_space(chars: Seq<char>, pos: int)
    requires
        0 <= pos,
    ensures
        pos <= skip_space(chars, pos) || chars.len() < pos,
        skip_space(chars, pos) <= chars.len() || chars.len() < pos,
        skip_space(chars, pos) < chars.len() ==> !spec_is_whitespace(chars[skip_space(chars, pos)]),
    decreases chars.len() - pos,
{
    if pos < chars.len() && spec_is_whitespace(chars[pos]) {
        lemma_skip_space(chars, pos + 1);
    }
}

proof fn lemma_word_end(chars: Seq<char>, pos: int)
    requires
        0 <= pos <= chars.len(),
    ensures
        pos <= word_end(chars, pos) <= chars.len(),
        forall|i: int| pos <= i < word_end(chars, pos) ==> !spec_is_whitespace(#[trigger] chars[i]),
    decreases chars.len() - pos,
{
    if pos < chars.len() && !(spec_is_whitespace(chars[pos]) || !spec_is_ascii(chars[pos])) {
        lemma_word_end(chars, pos + 1);
    }
}

/// An item starts at or after where the walk stands, is not empty, ends
/// within the line, and holds no whitespace; so the items of a line come in
/// order and never overlap.
pub proof fn law_item_in_order(chars: Seq<char>, pos: int)
    requires
        0 <= pos <= chars.len(),
    ensures
        next_item(chars, pos) matches Some((s, e)) ==> {
            &&& pos <= s < e <= chars.len()
            &&& forall|i: int| s <= i < e ==> !spec_is_whitespace(#[trigger] chars[i])
        },
{
    lemma_skip_space(chars, pos);
    let s = skip_space(chars, pos);
    if s < chars.len() && spec_is_ascii(chars[s]) {
        lemma_word_end(chars, s + 1);
    }
}


proof fn lemma_skip_space_all(chars: Seq<char>, pos: int)
    requires
        0 <= pos <= chars.len(),
    ensures
        pos <= skip_space(chars, pos) <= chars.len(),
        forall|i: int| pos <= i < skip_space(chars, pos) ==> spec_is_whitespace(#[trigger] chars[i]),
    decreases chars.len() - pos,
{
    if pos < chars.len() && spec_is_whitespace(chars[pos]) {
        lemma_skip_space_all(chars, pos + 1);
    }
}

proof fn lemma_word_end_stops(chars: Seq<char>, pos: int)
    requires
        0 <= pos <= chars.len(),
    ensures
        forall|i: int| pos <= i < word_end(chars, pos) ==> spec_is_ascii(#[trigger] chars[i]),
        word_end(chars, pos) < chars.len() ==> spec_is_whitespace(chars[word_end(chars, pos)])
            || !spec_is_ascii(chars[word_end(chars, pos)]),
    decreases chars.len() - pos,
{
    if pos < chars.len() && !(spec_is_whitespace(chars[pos]) || !spec_is_ascii(chars[pos])) {
        lemma_word_end_stops(chars, pos + 1);
    }
}

/// The byte span of characters `s .. e` is their UTF-8 encoding: offsets of
/// character indices fall on character boundaries.
proof fn lemma_span_bytes(chars: Seq<char>, s: int, e: int)
    requires
        0 <= s <= e <= chars.len(),
    ensures
        byte_at(chars, s) <= byte_at(chars, e) <= encode_utf8(chars).len(),
        encode_utf8(chars).subrange(byte_at(chars, s), byte_at(chars, e)) == encode_utf8(chars.subrange(s, e)),
{
    let a = chars.take(s);
    let b = chars.subrange(s, e);
    let c = chars.skip(e);
    assert(chars.take(e) =~= a + b);
    assert(chars =~= (a + b) + c);
    lemma_encode_concat(a, b);
    lemma_encode_concat(a + b, c);
    assert(encode_utf8(chars).subrange(byte_at(chars, s), byte_at(chars, e)) =~= encode_utf8(b));
}

/// What the walk yields from character index `pos` covers the line: every
/// character it passes before an item is whitespace, and with no item left
/// only whitespace remains. An item is a single non-ASCII character or a run
/// of ASCII non-whitespace characters that goes on as far as it can (up to
/// whitespace, a non-ASCII character or the end) and starts after whitespace
/// or where the walk stood; its byte span is exactly the UTF-8 encoding of its
/// characters, so it starts and ends on character boundaries.
pub proof fn law_items_cover_line(chars: Seq<char>, pos: int)
    requires
        0 <= pos <= chars.len(),
    ensures
        next_item(chars, pos) is None ==> forall|i: int| pos <= i < chars.len() ==> spec_is_whitespace(
            #[trigger] chars[i],
        ),
        next_item(chars, pos) matches Some((s, e)) ==> {
            &&& forall|i: int| pos <= i < s ==> spec_is_whitespace(#[trigger] chars[i])
            &&& (s > pos ==> spec_is_whitespace(chars[s - 1]))
            &&& if spec_is_ascii(chars[s]) {
                &&& forall|i: int| s <= i < e ==> spec_is_ascii(#[trigger] chars[i])
                    && !spec_is_whitespace(chars[i])
                &&& e < chars.len() ==> spec_is_whitespace(chars[e]) || !spec_is_ascii(chars[e])
            } else {
                e == s + 1
            }
            &&& encode_utf8(chars).subrange(byte_at(chars, s), byte_at(chars, e)) == encode_utf8(
                chars.subrange(s, e),
            )
        },
{
    lemma_skip_space_all(chars, pos);
    lemma_skip_space(chars, pos);
    law_item_in_order(chars, pos);
    let s = skip_space(chars, pos);
    if s < chars.len() {
        if spec_is_ascii(chars[s]) {
            lemma_word_end(chars, s + 1);
            lemma_word_end_stops(chars, s + 1);
            let e = word_end(chars, s + 1);
            assert forall|i: int| s <= i < e implies spec_is_ascii(#[trigger] chars[i]) && !spec_is_whitespace(chars[i]) by {
                if i > s {
                    assert(pos <= i);
                }
            }
            lemma_span_bytes(chars, s, e);
        } else {
            lemma_span_bytes(chars, s, s + 1);
        }
        if s > pos {
            assert(spec_is_whitespace(chars[s - 1]));
        }
    }
}

/// The items that successive calls of `ItemizeIterator::next` yield from
/// character index `pos` on, before the first `None`, as character indices
/// `(start, end)`.
pub open spec fn walk(chars: Seq<char>, pos: int) -> Seq<(int, int)>
    decreases chars.len() - pos,
{
    if pos < 0 || pos > chars.len() {
        Seq::empty()
    } else {
        match next_item(chars, pos) {
            None => Seq::empty(),
            Some((s, e)) => {
                proof {
                    law_item_in_order(chars, pos);
                }
                seq![(s, e)] + walk(chars, e)
            },
        }
    }
}

/// The shape of one item `(s, e)`: a run of ASCII non-whitespace characters
/// that goes on as far as it can, or a single non-ASCII character; its byte
/// span is exactly the UTF-8 encoding of its characters.
pub open spec fn item_shape(chars: Seq<char>, s: int, e: int) -> bool {
    &&& if spec_is_ascii(chars[s]) {
        &&& forall|i: int| s <= i < e ==> spec_is_ascii(#[trigger] chars[i]) && !spec_is_whitespace(chars[i])
        &&& e < chars.len() ==> spec_is_whitespace(chars[e]) || !spec_is_ascii(chars[e])
    } else {
        e == s + 1
    }
    &&& encode_utf8(chars).subrange(byte_at(chars, s), byte_at(chars, e)) == encode_utf8(chars.subrange(s, e))
}

/// A whole walk over a line from `pos` on: its items are not empty, lie
/// within the line, come in increasing order without overlapping, hold no
/// whitespace and have the shape of `item_shape`; and every non-whitespace
/// character from `pos` on lies in one of them.
pub proof fn law_walk_covers_line(chars: Seq<char>, pos: int)
    requires
        0 <= pos <= chars.len(),
    ensures
        forall|k: int| 0 <= k < walk(chars, pos).len() ==> pos <= (#[trigger] walk(chars, pos)[k]).0 < walk(chars, pos)[k].1
            <= chars.len(),
        forall|k: int, l: int| 0 <= k < l < walk(chars, pos).len() ==> (#[trigger] walk(chars, pos)[k]).1 <= (
        #[trigger] walk(chars, pos)[l]).0,
        forall|k: int, i: int| 0 <= k < walk(chars, pos).len() && (#[trigger] walk(chars, pos)[k]).0 <= i < walk(chars, pos)[k].1
            ==> !spec_is_whitespace(#[trigger] chars[i]),
        forall|k: int| 0 <= k < walk(chars, pos).len() ==> item_shape(chars, (#[trigger] walk(chars, pos)[k]).0, walk(chars, pos)[k].1),
        forall|i: int| pos <= i < chars.len() && !spec_is_whitespace(#[trigger] chars[i]) ==> exists|k: int|
            0 <= k < walk(chars, pos).len() && (#[trigger] walk(chars, pos)[k]).0 <= i < walk(chars, pos)[k].1,
    decreases chars.len() - pos,
{
    let items = walk(chars, pos);
    law_item_in_order(chars, pos);
    law_items_cover_line(chars, pos);
    match next_item(chars, pos) {
        None => {
            assert(items =~= Seq::<(int, int)>::empty());
        },
        Some((s, e)) => {
            let rest = walk(chars, e);
            law_walk_covers_line(chars, e);
            assert(items =~= seq![(s, e)] + rest);
            assert(items[0] == (s, e));
            assert forall|k: int| 0 < k < items.len() implies #[trigger] items[k] == rest[k - 1] by {}
            assert forall|k: int| 0 <= k < items.len() implies pos <= (#[trigger] items[k]).0 < items[k].1 <= chars.len() by {
                if k > 0 {
                    assert(items[k] == rest[k - 1]);
                }
            }
            assert forall|k: int, l: int| 0 <= k < l < items.len() implies (#[trigger] items[k]).1 <= (#[trigger] items[l]).0 by {
                assert(items[l] == rest[l - 1]);
                if k > 0 {
                    assert(items[k] == rest[k - 1]);
                }
            }
            assert forall|k: int, i: int| 0 <= k < items.len() && (#[trigger] items[k]).0 <= i < items[k].1
                implies !spec_is_whitespace(#[trigger] chars[i]) by {
                if k > 0 {
                    assert(items[k] == rest[k - 1]);
                }
            }
            assert forall|k: int| 0 <= k < items.len() implies item_shape(chars, (#[trigger] items[k]).0, items[k].1) by {
                if k > 0 {
                    assert(items[k] == rest[k - 1]);
                }
            }
            assert forall|i: int| pos <= i < chars.len() && !spec_is_whitespace(#[trigger] chars[i]) implies exists|k: int|
                0 <= k < items.len() && (#[trigger] items[k]).0 <= i < items[k].1 by {
                if i < s {
                    assert(spec_is_whitespace(chars[i]));
                } else if i < e {
                    assert(items[0].0 <= i < items[0].1);
                } else {
                    let k2 = choose|k2: int| 0 <= k2 < rest.len() && (#[trigger] rest[k2]).0 <= i < rest[k2].1;
                    assert(items[k2 + 1] == rest[k2]);
                }
            }
        },
    }
}

/// An item `(s, e)` of character indices as the iterator gives it: byte
/// offset and byte length.
pub open spec fn item_bytes(chars: Seq<char>, item: (int, int)) -> (usize, usize) {
    (byte_at(chars, item.0) as usize, (byte_at(chars, item.1) - byte_at(chars, item.0)) as usize)
}

/// All the items of a line, as successive calls of `ItemizeIterator::next`
/// give them until the first `None`: the walk over the line from its start
/// (see `law_walk_covers_line` for what holds of it).
pub fn line_items(line: &str) -> (items: Vec<(usize, usize)>)
    requires
        line.spec_bytes().len() <= usize::MAX,
    ensures
        items@ == walk(line@, 0).map_values(|p: (int, int)| item_bytes(line@, p)),
{
    let ghost chars = line@;
    let mut it = ItemizeIterator::new(line);
    let mut items: Vec<(usize, usize)> = Vec::new();
    loop
        invariant
            it.well_formed(),
            it.chars@ == chars,
            items@ + walk(chars, it.pos as int).map_values(|p: (int, int)| item_bytes(chars, p)) == walk(chars, 0).map_values(
                |p: (int, int)| item_bytes(chars, p),
            ),
        ensures
            items@ == walk(chars, 0).map_values(|p: (int, int)| item_bytes(chars, p)),
        decreases chars.len() - it.pos,
    {
        let ghost pos = it.pos as int;
        proof {
            law_item_in_order(chars, pos);
        }
        match it.next() {
            Some(item) => {
                proof {
                    let (s, e) = next_item(chars, pos).unwrap();
                    let rest = walk(chars, e);
                    assert(walk(chars, pos) == seq![(s, e)] + rest);
                    assert(walk(chars, pos).map_values(|p: (int, int)| item_bytes(chars, p)) =~= seq![item_bytes(chars, (s, e))]
                        + rest.map_values(|p: (int, int)| item_bytes(chars, p)));
                    assert(item == item_bytes(chars, (s, e)));
                    assert(items@.push(item) + rest.map_values(|p: (int, int)| item_bytes(chars, p)) =~= items@ + walk(
                        chars,
                        pos,
                    ).map_values(|p: (int, int)| item_bytes(chars, p)));
                }
                items.push(item);
            },
            None => {
                proof {
                    assert(walk(chars, pos) =~= Seq::<(int, int)>::empty());
                    assert(items@ + walk(chars, pos).map_values(|p: (int, int)| item_bytes(chars, p)) =~= items@);
                }
                break;
            },
        }
    }
    items
}

} // verus!

//! Rectangles of grid cells and lists of rectangles that need repainting.
use vstd::prelude::*;

verus! {

/// A rectangle of grid cells, bounds inclusive: rows `top..=bot`, columns `left..=right`.
#[derive(Clone, Copy, PartialEq, Eq, Structural, Debug)]
pub struct ModelRect {
    pub top: usize,
    pub bot: usize,
    pub left: usize,
    pub right: usize,
}

pub open spec fn min_nat(a: usize, b: usize) -> usize {
    if a < b { a } else { b }
}

pub open spec fn max_nat(a: usize, b: usize) -> usize {
    if a > b { a } else { b }
}

impl ModelRect {
    /// The rectangle holds the cell at `row`, `col`.
    pub open spec fn covers(self, row: int, col: int) -> bool {
        self.top <= row <= self.bot && self.left <= col <= self.right
    }

    /// Top not below bottom, left not right of right.
    pub open spec fn well_formed(self) -> bool {
        self.top <= self.bot && self.left <= self.right
    }

    /// Smallest rectangle that holds both.
    pub open spec fn spec_join(self, rect: ModelRect) -> ModelRect {
        ModelRect {
            top: min_nat(self.top, rect.top),
            left: min_nat(self.left, rect.left),
            bot: max_nat(self.bot, rect.bot),
            right: max_nat(self.right, rect.right),
        }
    }

    /// What `in_horizontal` decides.
    pub open spec fn spec_in_horizontal(self, other: ModelRect) -> bool {
        other.left >= self.left && other.left <= self.right
            || other.right >= self.left && other.right >= self.right
    }

    /// What `in_vertical` decides.
    pub open spec fn spec_in_vertical(self, other: ModelRect) -> bool {
        other.top >= self.top && other.top <= self.bot
            || other.bot >= self.top && other.bot <= self.bot
    }

    /// What `contains` decides.
    pub open spec fn spec_contains(self, other: ModelRect) -> bool {
        self.top <= other.top && self.bot >= other.bot && self.left <= other.left
            && self.right >= other.right
    }

    pub fn new(top: usize, bot: usize, left: usize, right: usize) -> (r: ModelRect)
        ensures
            r == (ModelRect { top, bot, left, right }),
    {
        ModelRect { top, bot, left, right }
    }

    /// The one cell at column `x`, row `y`.
    pub fn point(x: usize, y: usize) -> (r: ModelRect)
        ensures
            r == (ModelRect { top: y, bot: y, left: x, right: x }),
    {
        ModelRect { top: y, bot: y, left: x, right: x }
    }

    pub fn in_horizontal(&self, other: &ModelRect) -> (b: bool)
        ensures
            b == self.spec_in_horizontal(*other),
    {
        other.left >= self.left && other.left <= self.right
            || other.right >= self.left && other.right >= self.right
    }

    pub fn in_vertical(&self, other: &ModelRect) -> (b: bool)
        ensures
            b == self.spec_in_vertical(*other),
    {
        other.top >= self.top && other.top <= self.bot
            || other.bot >= self.top && other.bot <= self.bot
    }

    pub fn contains(&self, other: &ModelRect) -> (b: bool)
        ensures
            b == self.spec_contains(*other),
    {
        self.top <= other.top && self.bot >= other.bot && self.left <= other.left
            && self.right >= other.right
    }

    /// Grows the rectangle to the smallest one that also holds `rect`.
    pub fn join(&mut self, rect: &ModelRect)
        ensures
            *final(self) == old(self).spec_join(*rect),
    {
        self.top = if self.top < rect.top { self.top } else { rect.top };
        self.left = if self.left < rect.left { self.left } else { rect.left };
        self.bot = if self.bot > rect.bot { self.bot } else { rect.bot };
        self.right = if self.right > rect.right { self.right } else { rect.right };
    }

    /// Pixel area `(x, y, width, height)` of the rectangle for the given cell size;
    /// each count is taken as an `i32` before it is scaled.
    pub fn to_area(&self, line_height: i32, char_width: i32) -> (area: (i32, i32, i32, i32))
        requires
            self.well_formed(),
            self.right - self.left + 1 <= usize::MAX,
            self.bot - self.top + 1 <= usize::MAX,
            i32::MIN <= (self.left as i32) * char_width <= i32::MAX,
            i32::MIN <= (self.top as i32) * line_height <= i32::MAX,
            i32::MIN <= ((self.right - self.left + 1) as usize as i32) * char_width <= i32::MAX,
            i32::MIN <= ((self.bot - self.top + 1) as usize as i32) * line_height <= i32::MAX,
        ensures
            area.0 == (self.left as i32) * char_width,
            area.1 == (self.top as i32) * line_height,
            area.2 == ((self.right - self.left + 1) as usize as i32) * char_width,
            area.3 == ((self.bot - self.top + 1) as usize as i32) * line_height,
    {
        (
            self.left as i32 * char_width,
            self.top as i32 * line_height,
            (self.right - self.left + 1) as i32 * char_width,
            (self.bot - self.top + 1) as i32 * line_height,
        )
    }
}

/// Does `rect`, already queued for repaint, border on or overlap `neighbor`,
/// in the way that lets the two be merged into one rectangle?
pub open spec fn is_neighbor(neighbor: ModelRect, rect: ModelRect) -> bool {
    ||| (neighbor.top > 0 && rect.top == neighbor.top - 1 || rect.bot == neighbor.bot + 1)
        && neighbor.spec_in_horizontal(rect)
    ||| (neighbor.left > 0 && rect.left == neighbor.left - 1 || rect.right == neighbor.right + 1)
        && neighbor.spec_in_vertical(rect)
    ||| rect.spec_in_horizontal(neighbor) && rect.spec_in_vertical(neighbor)
    ||| rect.spec_contains(neighbor)
}

/// Index of the first rectangle of `list` that `neighbor` can be merged into.
pub open spec fn first_neighbor(list: Seq<ModelRect>, neighbor: ModelRect) -> Option<int>
    decreases list.len(),
{
    if list.len() == 0 {
        None
    } else {
        match first_neighbor(list.drop_last(), neighbor) {
            Some(i) => Some(i),
            None => if is_neighbor(neighbor, list.last()) {
                Some(list.len() - 1)
            } else {
                None
            },
        }
    }
}

/// `first_neighbor` finds the least index whose rectangle borders on `neighbor`.
pub proof fn lemma_first_neighbor(list: Seq<ModelRect>, neighbor: ModelRect)
    ensures
        match first_neighbor(list, neighbor) {
            Some(i) => 0 <= i < list.len() && is_neighbor(neighbor, list[i]) && forall|j: int|
                0 <= j < i ==> !is_neighbor(neighbor, #[trigger] list[j]),
            None => forall|j: int| 0 <= j < list.len() ==> !is_neighbor(neighbor, #[trigger] list[j]),
        },
    decreases list.len(),
{
    if list.len() > 0 {
        let d = list.drop_last();
        lemma_first_neighbor(d, neighbor);
        match first_neighbor(d, neighbor) {
            Some(i) => {
                assert(list[i] == d[i]);
                assert forall|j: int| 0 <= j < i implies !is_neighbor(neighbor, #[trigger] list[j]) by {
                    assert(list[j] == d[j]);
                }
            },
            None => {
                assert forall|j: int| 0 <= j < list.len() - 1 implies !is_neighbor(
                    neighbor,
                    #[trigger] list[j],
                ) by {
                    assert(list[j] == d[j]);
                }
            },
        }
    }
}

/// The list after `other` has been merged in.
pub open spec fn spec_vec_join(list: Seq<ModelRect>, other: ModelRect) -> Seq<ModelRect> {
    match first_neighbor(list, other) {
        Some(i) => list.update(i, list[i].spec_join(other)),
        None => list.push(other),
    }
}

/// Some rectangle of the list holds the cell.
pub open spec fn list_covers(list: Seq<ModelRect>, row: int, col: int) -> bool {
    exists|i: int| 0 <= i < list.len() && (#[trigger] list[i]).covers(row, col)
}

/// Adding one to a bound of `r` does not overflow.
pub open spec fn extendable(r: ModelRect) -> bool {
    r.bot < usize::MAX && r.right < usize::MAX
}

/// A list of rectangles that need repainting; a new rectangle is merged into
/// the first one it borders on, and else appended.
#[derive(Clone, Debug)]
pub struct ModelRectVec {
    pub list: Vec<ModelRect>,
}

impl ModelRectVec {
    pub fn empty() -> (v: ModelRectVec)
        ensures
            v.list@ == Seq::<ModelRect>::empty(),
    {
        ModelRectVec { list: Vec::new() }
    }

    pub fn new(first: ModelRect) -> (v: ModelRectVec)
        ensures
            v.list@ == seq![first],
    {
        let mut list = Vec::new();
        list.push(first);
        ModelRectVec { list }
    }

    pub fn find_neighbor(&self, neighbor: &ModelRect) -> (r: Option<usize>)
        requires
            extendable(*neighbor),
        ensures
            r is None <==> first_neighbor(self.list@, *neighbor) is None,
            r matches Some(i) ==> first_neighbor(self.list@, *neighbor) == Some(i as int),
    {
        let mut i: usize = 0;
        while i < self.list.len()
            invariant
                i <= self.list@.len(),
                extendable(*neighbor),
                first_neighbor(self.list@.take(i as int), *neighbor) == None::<int>,
            decreases self.list@.len() - i,
        {
            let rect = &self.list[i];
            let found = if (neighbor.top > 0 && rect.top == neighbor.top - 1
                || rect.bot == neighbor.bot + 1) && neighbor.in_horizontal(rect) {
                true
            } else if (neighbor.left > 0 && rect.left == neighbor.left - 1
                || rect.right == neighbor.right + 1) && neighbor.in_vertical(rect) {
                true
            } else if rect.in_horizontal(neighbor) && rect.in_vertical(neighbor) {
                true
            } else {
                rect.contains(neighbor)
            };
            proof {
                let t = self.list@.take(i + 1);
                assert(t.drop_last() =~= self.list@.take(i as int));
                assert(t.last() == self.list@[i as int]);
                if found {
                    lemma_first_prefix(self.list@, *neighbor, i + 1);
                }
            }
            if found {
                return Some(i);
            }
            i = i + 1;
        }
        assert(self.list@.take(i as int) =~= self.list@);
        None
    }

    /// Merges `other` into the first rectangle it borders on, or appends it.
    pub fn join(&mut self, other: &ModelRect)
        requires
            extendable(*other),
        ensures
            final(self).list@ == spec_vec_join(old(self).list@, *other),
    {
        proof {
            lemma_first_neighbor(self.list@, *other);
        }
        match self.find_neighbor(other) {
            Some(i) => {
                let mut r = self.list[i];
                r.join(other);
                self.list.set(i, r);
            },
            None => self.list.push(*other),
        }
    }
}

/// Once a prefix holds a neighbor, the whole list has the same first neighbor.
pub proof fn lemma_first_prefix(list: Seq<ModelRect>, neighbor: ModelRect, n: int)
    requires
        0 <= n <= list.len(),
        first_neighbor(list.take(n), neighbor) is Some,
    ensures
        first_neighbor(list, neighbor) == first_neighbor(list.take(n), neighbor),
    decreases list.len() - n,
{
    if n < list.len() {
        let t = list.take(n + 1);
        assert(t.drop_last() =~= list.take(n));
        lemma_first_prefix(list, neighbor, n + 1);
    } else {
        assert(list.take(n) =~= list);
    }
}

/// Joining two rectangles gives one that holds every cell of either.
pub proof fn law_join_covers_both(a: ModelRect, b: ModelRect, row: int, col: int)
    ensures
        a.covers(row, col) || b.covers(row, col) ==> a.spec_join(b).covers(row, col),
        a.well_formed() ==> a.spec_join(b).well_formed(),
{
}

/// Joining is the same in either order.
pub proof fn law_join_commutes(a: ModelRect, b: ModelRect)
    ensures
        a.spec_join(b) == b.spec_join(a),
{
}

/// Joining a rectangle with itself, or with one it contains, leaves it unchanged.
pub proof fn law_join_contained(a: ModelRect, b: ModelRect)
    requires
        a.spec_contains(b),
    ensures
        a.spec_join(b) == a,
{
}

/// Merging a rectangle into a repaint list loses no cell: every cell held by
/// the list before, or by the new rectangle, is held by the list after.
pub proof fn law_vec_join_covers(list: Seq<ModelRect>, other: ModelRect, row: int, col: int)
    requires
        list_covers(list, row, col) || other.covers(row, col),
    ensures
        list_covers(spec_vec_join(list, other), row, col),
{
    lemma_first_neighbor(list, other);
    let l2 = spec_vec_join(list, other);
    match first_neighbor(list, other) {
        Some(i) => {
            if other.covers(row, col) {
                assert(l2[i].covers(row, col));
            } else {
                let k = choose|k: int| 0 <= k < list.len() && (#[trigger] list[k]).covers(row, col);
                assert(l2[k].covers(row, col));
            }
        },
        None => {
            if other.covers(row, col) {
                assert(l2[list.len() as int].covers(row, col));
            } else {
                let k = choose|k: int| 0 <= k < list.len() && (#[trigger] list[k]).covers(row, col);
                assert(l2[k].covers(row, col));
            }
        },
    }
}

/// Merging grows the list by one rectangle exactly when no rectangle of it
/// borders on the new one; otherwise the length stays.
pub proof fn law_vec_join_len(list: Seq<ModelRect>, other: ModelRect)
    ensures
        spec_vec_join(list, other).len() == list.len() + (if (exists|j: int|
            0 <= j < list.len() && is_neighbor(other, #[trigger] list[j])) {
            0int
        } else {
            1int
        }),
{
    lemma_first_neighbor(list, other);
}

} // verus!

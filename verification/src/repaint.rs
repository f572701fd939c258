//! What needs repainting after a batch of redraw events, per grid and overall.
use fnv::FnvHashMap;
use vstd::prelude::*;

use crate::fnv_map::{fnv_map_get, fnv_map_insert, fnv_map_new, fnv_map_remove};
use crate::model_rect::{
    extendable, list_covers, spec_vec_join, law_vec_join_covers, ModelRect, ModelRectVec,
};

verus! {

/// How much of a grid must be repainted.
#[derive(Clone, Debug)]
pub enum RepaintMode {
    Nothing,
    All,
    AreaList(ModelRectVec),
    Area(ModelRect),
}

/// The mathematical value of a `RepaintMode`.
pub enum RepaintView {
    Nothing,
    All,
    AreaList(Seq<ModelRect>),
    Area(ModelRect),
}

impl View for RepaintMode {
    type V = RepaintView;

    open spec fn view(&self) -> RepaintView {
        match self {
            RepaintMode::Nothing => RepaintView::Nothing,
            RepaintMode::All => RepaintView::All,
            RepaintMode::AreaList(l) => RepaintView::AreaList(l.list@),
            RepaintMode::Area(r) => RepaintView::Area(*r),
        }
    }
}

/// Every rectangle of the list can have one added to its bottom and right bounds.
pub open spec fn all_extendable(list: Seq<ModelRect>) -> bool {
    forall|i: int| 0 <= i < list.len() ==> extendable(#[trigger] list[i])
}

impl RepaintView {
    /// The repaint covers the cell at `row`, `col`.
    pub open spec fn covers(self, row: int, col: int) -> bool {
        match self {
            RepaintView::Nothing => false,
            RepaintView::All => true,
            RepaintView::AreaList(l) => list_covers(l, row, col),
            RepaintView::Area(r) => r.covers(row, col),
        }
    }

    /// Its rectangles can be merged without overflow.
    pub open spec fn joinable(self) -> bool {
        match self {
            RepaintView::AreaList(l) => all_extendable(l),
            RepaintView::Area(r) => extendable(r),
            _ => true,
        }
    }
}

/// `target` with every rectangle of `source` merged in, in order.
pub open spec fn fold_join(target: Seq<ModelRect>, source: Seq<ModelRect>) -> Seq<ModelRect>
    decreases source.len(),
{
    if source.len() == 0 {
        target
    } else {
        spec_vec_join(fold_join(target, source.drop_last()), source.last())
    }
}

/// What `RepaintMode::join` gives.
pub open spec fn spec_mode_join(a: RepaintView, b: RepaintView) -> RepaintView {
    match (a, b) {
        (RepaintView::Nothing, m) => m,
        (m, RepaintView::Nothing) => m,
        (RepaintView::All, _) => RepaintView::All,
        (_, RepaintView::All) => RepaintView::All,
        (RepaintView::Area(r1), RepaintView::Area(r2)) => RepaintView::AreaList(
            spec_vec_join(seq![r1], r2),
        ),
        (RepaintView::AreaList(t), RepaintView::AreaList(s)) => RepaintView::AreaList(
            fold_join(t, s),
        ),
        (RepaintView::AreaList(l), RepaintView::Area(r)) => RepaintView::AreaList(
            spec_vec_join(l, r),
        ),
        (RepaintView::Area(r), RepaintView::AreaList(l)) => RepaintView::AreaList(
            spec_vec_join(l, r),
        ),
    }
}

impl RepaintMode {
    /// Combines two repaint requests into one.
    pub fn join(self, mode: RepaintMode) -> (r: RepaintMode)
        requires
            !(self@ is Nothing || self@ is All || mode@ is Nothing || mode@ is All) ==> self@.joinable()
                && mode@.joinable(),
        ensures
            r@ == spec_mode_join(self@, mode@),
    {
        match (self, mode) {
            (RepaintMode::Nothing, m) => m,
            (m, RepaintMode::Nothing) => m,
            (RepaintMode::All, _) => RepaintMode::All,
            (_, RepaintMode::All) => RepaintMode::All,
            (RepaintMode::Area(mr1), RepaintMode::Area(mr2)) => {
                let mut vec = ModelRectVec::new(mr1);
                vec.join(&mr2);
                RepaintMode::AreaList(vec)
            },
            (RepaintMode::AreaList(mut target), RepaintMode::AreaList(source)) => {
                let ghost t0 = target.list@;
                let mut i: usize = 0;
                while i < source.list.len()
                    invariant
                        i <= source.list@.len(),
                        all_extendable(source.list@),
                        target.list@ == fold_join(t0, source.list@.take(i as int)),
                    decreases source.list@.len() - i,
                {
                    proof {
                        let t = source.list@.take(i + 1);
                        assert(t.drop_last() =~= source.list@.take(i as int));
                    }
                    target.join(&source.list[i]);
                    i = i + 1;
                }
                proof {
                    assert(source.list@.take(i as int) =~= source.list@);
                }
                RepaintMode::AreaList(target)
            },
            (RepaintMode::AreaList(mut list), RepaintMode::Area(l2)) => {
                list.join(&l2);
                RepaintMode::AreaList(list)
            },
            (RepaintMode::Area(l1), RepaintMode::AreaList(mut list)) => {
                list.join(&l1);
                RepaintMode::AreaList(list)
            },
        }
    }
}

/// A repaint request for one grid, or for all grids when `grid_id` is `None`.
pub struct RepaintGridEvent {
    pub grid_id: Option<u64>,
    pub mode: RepaintMode,
}

impl RepaintGridEvent {
    pub fn new(grid_id: u64, mode: RepaintMode) -> (ev: Self)
        ensures
            ev.grid_id == Some(grid_id),
            ev.mode == mode,
    {
        RepaintGridEvent { grid_id: Some(grid_id), mode }
    }

    pub fn all() -> (ev: Self)
        ensures
            ev.grid_id is None,
            ev.mode@ == RepaintView::All,
    {
        RepaintGridEvent { grid_id: None, mode: RepaintMode::All }
    }

    pub fn nothing() -> (ev: Self)
        ensures
            ev.grid_id is None,
            ev.mode@ == RepaintView::Nothing,
    {
        RepaintGridEvent { grid_id: None, mode: RepaintMode::Nothing }
    }

    /// Adds the repaint of `event` to this one; the grid id stays.
    pub fn join(&mut self, event: RepaintGridEvent)
        requires
            old(self).mode@.joinable(),
            event.mode@.joinable(),
        ensures
            final(self).grid_id == old(self).grid_id,
            final(self).mode@ == spec_mode_join(old(self).mode@, event.mode@),
    {
        let mut mode = RepaintMode::Nothing;
        std::mem::swap(&mut mode, &mut self.mode);
        self.mode = mode.join(event.mode);
    }
}

/// All repaint requests of one batch of redraw events.
pub struct RepaintEvent {
    pub events: FnvHashMap<u64, RepaintGridEvent>,
    pub repaint_all: bool,
}

impl RepaintEvent {
    /// Each recorded request can still be joined with others.
    pub open spec fn well_formed(&self) -> bool {
        forall|k: u64| #[trigger] self.events@.contains_key(k) ==> self.events@[k].mode@.joinable()
    }

    /// `join` can take `event`: one that names no grid asks for nothing or for all.
    pub open spec fn accepts(&self, event: RepaintGridEvent) -> bool {
        &&& event.mode@.joinable()
        &&& (event.grid_id is None ==> (event.mode@ is Nothing || event.mode@ is All))
    }

    /// How `join` relates the state before (`events`, `all`) to the state after
    /// (`events2`, `all2`) when it records `event`.
    pub open spec fn join_post(
        events: Map<u64, RepaintGridEvent>,
        all: bool,
        event: RepaintGridEvent,
        events2: Map<u64, RepaintGridEvent>,
        all2: bool,
    ) -> bool {
        if event.mode@ is Nothing {
            events2 == events && all2 == all
        } else if event.mode@ is All && event.grid_id is None {
            events2 == events && all2
        } else if all {
            events2 == events && all2 == all
        } else {
            let id = event.grid_id->0;
            &&& all2 == all
            &&& events2.dom() == events.dom().insert(id)
            &&& forall|k: u64| #[trigger] events.contains_key(k) && k != id ==> events2[k] == events[k]
            &&& if events.contains_key(id) {
                &&& events2[id].grid_id == events[id].grid_id
                &&& events2[id].mode@ == spec_mode_join(events[id].mode@, event.mode@)
            } else {
                events2[id] == event
            }
        }
    }

    pub fn new() -> (ev: Self)
        ensures
            ev.events@ == Map::<u64, RepaintGridEvent>::empty(),
            !ev.repaint_all,
    {
        let events = fnv_map_new();
        proof {
            assert(events@ =~= Map::<u64, RepaintGridEvent>::empty());
        }
        RepaintEvent { events, repaint_all: false }
    }

    pub fn all() -> (ev: Self)
        ensures
            ev.events@ == Map::<u64, RepaintGridEvent>::empty(),
            ev.repaint_all,
    {
        let events = fnv_map_new();
        proof {
            assert(events@ =~= Map::<u64, RepaintGridEvent>::empty());
        }
        RepaintEvent { events, repaint_all: true }
    }

    pub fn from_grid_event(grid_id: u64, mode: RepaintMode) -> (ev: Self)
        requires
            mode@.joinable(),
        ensures
            ev.well_formed(),
            !ev.repaint_all,
            mode@ is Nothing ==> ev.events@ == Map::<u64, RepaintGridEvent>::empty(),
            !(mode@ is Nothing) ==> ev.events@.dom() == Set::<u64>::empty().insert(grid_id),
            !(mode@ is Nothing) ==> ev.events@[grid_id].grid_id == Some(grid_id),
            !(mode@ is Nothing) ==> ev.events@[grid_id].mode == mode,
    {
        let mut ev = RepaintEvent::new();
        ev.join(RepaintGridEvent::new(grid_id, mode));
        ev
    }

    /// Records `event`: a request for all grids sets `repaint_all`, after which
    /// per-grid requests are dropped; a grid's requests are joined together.
    pub fn join(&mut self, event: RepaintGridEvent)
        requires
            old(self).well_formed(),
            old(self).accepts(event),
        ensures
            final(self).well_formed(),
            Self::join_post(
                old(self).events@,
                old(self).repaint_all,
                event,
                final(self).events@,
                final(self).repaint_all,
            ),
    {
        match event.mode {
            RepaintMode::Nothing => return,
            RepaintMode::All => {
                if event.grid_id.is_none() {
                    self.repaint_all = true;
                    return;
                }
            },
            _ => (),
        }

        if !self.repaint_all {
            let grid_id = match event.grid_id {
                Some(id) => id,
                None => {
                    proof {
                        assert(false);
                    }
                    return;
                },
            };
            match fnv_map_remove(&mut self.events, grid_id) {
                Some(mut previous_event) => {
                    proof {
                        assert(old(self).events@.contains_key(grid_id));
                    }
                    previous_event.join(event);
                    fnv_map_insert(&mut self.events, grid_id, previous_event);
                    proof {
                        law_mode_join_covers(
                            old(self).events@[grid_id].mode@,
                            event.mode@,
                            0,
                            0,
                        );
                        assert(self.events@.dom() =~= old(self).events@.dom().insert(grid_id));
                    }
                },
                None => {
                    fnv_map_insert(&mut self.events, grid_id, event);
                    proof {
                        assert(self.events@.dom() =~= old(self).events@.dom().insert(grid_id));
                    }
                },
            }
        }
    }
}

/// Merging keeps every rectangle of the list extendable.
pub proof fn lemma_vec_join_extendable(list: Seq<ModelRect>, other: ModelRect)
    requires
        all_extendable(list),
        extendable(other),
    ensures
        all_extendable(spec_vec_join(list, other)),
{
    crate::model_rect::lemma_first_neighbor(list, other);
    let l2 = spec_vec_join(list, other);
    assert forall|i: int| 0 <= i < l2.len() implies extendable(#[trigger] l2[i]) by {
        if i < list.len() {
            assert(extendable(list[i]));
        }
    }
}

/// Folding a list of extendable rectangles into another keeps them extendable,
/// and the result holds every cell of both lists.
pub proof fn lemma_fold_join(target: Seq<ModelRect>, source: Seq<ModelRect>, row: int, col: int)
    requires
        all_extendable(target),
        all_extendable(source),
    ensures
        all_extendable(fold_join(target, source)),
        list_covers(target, row, col) || list_covers(source, row, col) ==> list_covers(
            fold_join(target, source),
            row,
            col,
        ),
    decreases source.len(),
{
    if source.len() > 0 {
        let d = source.drop_last();
        assert(all_extendable(d)) by {
            assert forall|i: int| 0 <= i < d.len() implies extendable(#[trigger] d[i]) by {
                assert(d[i] == source[i]);
            }
        }
        lemma_fold_join(target, d, row, col);
        let f = fold_join(target, d);
        assert(extendable(source[source.len() - 1]));
        lemma_vec_join_extendable(f, source.last());
        if list_covers(source, row, col) {
            let k = choose|k: int| 0 <= k < source.len() && (#[trigger] source[k]).covers(row, col);
            if k < source.len() - 1 {
                assert(d[k] == source[k]);
                assert(list_covers(d, row, col));
            }
        }
        if list_covers(f, row, col) || source.last().covers(row, col) {
            law_vec_join_covers(f, source.last(), row, col);
        }
    }
}

/// Joining two repaint requests repaints every cell that either would.
pub proof fn law_mode_join_covers(a: RepaintView, b: RepaintView, row: int, col: int)
    requires
        a.joinable(),
        b.joinable(),
    ensures
        a.covers(row, col) || b.covers(row, col) ==> spec_mode_join(a, b).covers(row, col),
        spec_mode_join(a, b).joinable(),
{
    match (a, b) {
        (RepaintView::Area(r1), RepaintView::Area(r2)) => {
            assert(list_covers(seq![r1], row, col) <== r1.covers(row, col)) by {
                if r1.covers(row, col) {
                    assert(seq![r1][0].covers(row, col));
                }
            }
            assert(all_extendable(seq![r1]));
            lemma_vec_join_extendable(seq![r1], r2);
            if a.covers(row, col) || b.covers(row, col) {
                law_vec_join_covers(seq![r1], r2, row, col);
            }
        },
        (RepaintView::AreaList(t), RepaintView::AreaList(src)) => {
            lemma_fold_join(t, src, row, col);
        },
        (RepaintView::AreaList(l), RepaintView::Area(r)) => {
            lemma_vec_join_extendable(l, r);
            if a.covers(row, col) || b.covers(row, col) {
                law_vec_join_covers(l, r, row, col);
            }
        },
        (RepaintView::Area(r), RepaintView::AreaList(l)) => {
            lemma_vec_join_extendable(l, r);
            if a.covers(row, col) || b.covers(row, col) {
                law_vec_join_covers(l, r, row, col);
            }
        },
        _ => {},
    }
}

/// `Nothing` is neutral on both sides of a join, and `All` absorbs everything.
pub proof fn law_mode_join_units(m: RepaintView)
    ensures
        spec_mode_join(RepaintView::Nothing, m) == m,
        spec_mode_join(m, RepaintView::Nothing) == m,
        m != RepaintView::Nothing ==> spec_mode_join(RepaintView::All, m) == RepaintView::All,
        m != RepaintView::Nothing ==> spec_mode_join(m, RepaintView::All) == RepaintView::All,
{
}

/// Recording a request forgets nothing: `repaint_all` once set stays set; each
/// grid keeps every cell it was to repaint; and unless all grids are to be
/// repainted, the grid the request names now repaints every cell it asks for.
pub proof fn law_event_join_monotone(
    events: Map<u64, RepaintGridEvent>,
    all: bool,
    event: RepaintGridEvent,
    events2: Map<u64, RepaintGridEvent>,
    all2: bool,
    k: u64,
    row: int,
    col: int,
)
    requires
        RepaintEvent::join_post(events, all, event, events2, all2),
        forall|j: u64| #[trigger] events.contains_key(j) ==> events[j].mode@.joinable(),
        event.mode@.joinable(),
    ensures
        all ==> all2,
        events.contains_key(k) ==> events2.contains_key(k),
        events.contains_key(k) && events[k].mode@.covers(row, col) ==> events2[k].mode@.covers(
            row,
            col,
        ),
        !all2 && event.grid_id == Some(k) && event.mode@.covers(row, col) ==> events2.contains_key(k)
            && events2[k].mode@.covers(row, col),
{
    if events.contains_key(k) {
        law_mode_join_covers(events[k].mode@, event.mode@, row, col);
    }
}

} // verus!

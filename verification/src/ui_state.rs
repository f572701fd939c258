//! The front end's state as redraw calls change it: the grids, highlights,
//! mode, completion menu, tabs and command line, and what each call repaints.
use fnv::FnvHashMap;
use vstd::prelude::*;
use vstd::string::StringSliceAdditionalSpecFns;

use crate::cmdline::{
    chunk_cells, grapheme_clusters, levels_view, lines_view, lines_with_typed,
    prompt_rows, shown_levels, hidden_levels, CmdLine, LevelView,
};
use crate::color::{spec_from_indexed, Color};
use crate::fnv_map::{fnv_map_get, fnv_map_insert, fnv_map_new, fnv_map_remove};
use crate::grid::{entry_start, line_cell, line_fits, Grid};
use crate::highlight::{highlight_of_pairs, lemma_highlight_of_pairs, plain_highlight, Highlight, HighlightMap};
use crate::mode::{mode_info_error, mode_info_readable, mode_of, reads_mode_info, Mode, ModeInfo};
use crate::model_rect::{spec_vec_join, ModelRect};
use crate::redraw::{op_signature, Arg, ArgKind, RedrawCall, UiOp};
use crate::repaint::{RepaintGridEvent, RepaintMode, RepaintView};
use crate::text::string_from;
use crate::ui_model::{cleared_cell, scrolled_cell};
use crate::value::{all_keys_str, AttrsMap, Value};

verus! {

/// The cells of a `grid_line` call: an array whose items are arrays.
pub open spec fn cells_of(v: Value) -> Result<Seq<Seq<Value>>, Seq<char>> {
    match v {
        Value::Array(items) => if forall|i: int| 0 <= i < items@.len() ==> (#[trigger] items@[i]) is Array {
            Ok(Seq::new(items@.len(), |i: int| items@[i]->Array_0@))
        } else {
            Err("Can't convert grid line cell to array"@)
        },
        _ => Err("Can't convert grid line cells to array"@),
    }
}

/// Reads the cells of a `grid_line` call.
pub fn read_cells(v: Value) -> (r: Result<Vec<Vec<Value>>, String>)
    ensures
        match cells_of(v) {
            Ok(c) => r matches Ok(x) && x@.map_values(|e: Vec<Value>| e@) == c,
            Err(e) => r matches Err(m) && m@ == e,
        },
{
    let ghost v0 = v;
    match v {
        Value::Array(items) => {
            let ghost all = items@;
            let mut rest = items;
            let mut out: Vec<Vec<Value>> = Vec::new();
            let n = rest.len();
            let mut i: usize = 0;
            while i < n
                invariant
                    v0 == v,
                    v0 is Array && v0->Array_0@ == all,
                    n == all.len(),
                    i <= n,
                    rest@ == all.skip(i as int),
                    out@.len() == i,
                    forall|j: int| 0 <= j < i ==> (#[trigger] all[j]) is Array,
                    forall|j: int| 0 <= j < i ==> (#[trigger] out@[j])@ == all[j]->Array_0@,
                decreases n - i,
            {
                let item = rest.remove(0);
                proof {
                    assert(item == all[i as int]);
                    assert(rest@ =~= all.skip(i + 1));
                }
                match item {
                    Value::Array(entry) => {
                        let ghost before = out@;
                        out.push(entry);
                        proof {
                            assert(all[i as int] is Array);
                            assert forall|j: int| 0 <= j < i + 1 implies (#[trigger] out@[j])@ == all[j]->Array_0@ by {
                                if j < i {
                                    assert(out@[j] == before[j]);
                                }
                            }
                        }
                    },
                    _ => {
                        proof {
                            assert(!(v0->Array_0@[i as int] is Array));
                            assert(cells_of(v0) is Err);
                            assert(v0 == v);
                            reveal_strlit("Can't convert grid line cell to array");
                        }
                        return Err(string_from("Can't convert grid line cell to array"));
                    },
                }
                i = i + 1;
            }
            proof {
                assert(v0 == v);
                assert(all.skip(n as int).len() == 0);
                assert(out@.map_values(|e: Vec<Value>| e@) =~= Seq::new(all.len(), |i: int| all[i]->Array_0@));
            }
            Ok(out)
        },
        _ => Err(string_from("Can't convert grid line cells to array")),
    }
}

/// A chunk of the command line as it comes: `[attrs, text]`.
pub open spec fn is_chunk(v: Value) -> bool {
    v matches Value::Array(p) && p@.len() == 2 && p@[0] is Table && p@[1] is Str
}

/// The chunks of a command-line content: their attribute pairs and texts.
pub open spec fn chunks_of(v: Value) -> Result<Seq<(Seq<(Value, Value)>, Seq<char>)>, Seq<char>> {
    match v {
        Value::Array(items) => if forall|i: int| 0 <= i < items@.len() ==> is_chunk(#[trigger] items@[i]) {
            Ok(
                Seq::new(
                    items@.len(),
                    |i: int| (items@[i]->Array_0@[0]->Table_0@, items@[i]->Array_0@[1]->Str_0@),
                ),
            )
        } else {
            Err("Can't convert command line chunk"@)
        },
        _ => Err("Can't convert command line content to array"@),
    }
}

/// Chunks as plain values.
pub open spec fn chunks_view(c: Seq<(Vec<(Value, Value)>, String)>) -> Seq<(Seq<(Value, Value)>, Seq<char>)> {
    c.map_values(|x: (Vec<(Value, Value)>, String)| (x.0@, x.1@))
}

/// Reads the chunks of a command-line content.
pub fn read_chunks(v: Value) -> (r: Result<Vec<(Vec<(Value, Value)>, String)>, String>)
    ensures
        match chunks_of(v) {
            Ok(c) => r matches Ok(x) && chunks_view(x@) == c,
            Err(e) => r matches Err(m) && m@ == e,
        },
{
    let ghost v0 = v;
    match v {
        Value::Array(items) => {
            let ghost all = items@;
            let mut rest = items;
            let mut out: Vec<(Vec<(Value, Value)>, String)> = Vec::new();
            let n = rest.len();
            let mut i: usize = 0;
            while i < n
                invariant
                    v0 == v,
                    v0 is Array && v0->Array_0@ == all,
                    n == all.len(),
                    i <= n,
                    rest@ == all.skip(i as int),
                    out@.len() == i,
                    forall|j: int| 0 <= j < i ==> is_chunk(#[trigger] all[j]),
                    forall|j: int| 0 <= j < i ==> (#[trigger] out@[j]).0@ == all[j]->Array_0@[0]->Table_0@
                        && out@[j].1@ == all[j]->Array_0@[1]->Str_0@,
                decreases n - i,
            {
                let item = rest.remove(0);
                proof {
                    assert(item == all[i as int]);
                    assert(rest@ =~= all.skip(i + 1));
                }
                let bad = string_from("Can't convert command line chunk");
                proof {
                    assert(v0->Array_0@[i as int] == item);
                }
                match item {
                    Value::Array(mut pair) => {
                        if pair.len() != 2 {
                            proof {
                                assert(!is_chunk(v0->Array_0@[i as int]));
                            }
                            return Err(bad);
                        }
                        let ghost pv = pair@;
                        let first = pair.remove(0);
                        let second = pair.remove(0);
                        proof {
                            assert(first == pv[0]);
                            assert(second == pv[1]);
                        }
                        match (first, second) {
                            (Value::Table(attrs), Value::Str(text)) => {
                                let ghost before = out@;
                                out.push((attrs, text));
                                proof {
                                    assert(is_chunk(all[i as int]));
                                    assert forall|j: int| 0 <= j < i + 1 implies (#[trigger] out@[j]).0@
                                        == all[j]->Array_0@[0]->Table_0@ && out@[j].1@ == all[j]->Array_0@[1]->Str_0@ by {
                                        if j < i {
                                            assert(out@[j] == before[j]);
                                        }
                                    }
                                }
                            },
                            _ => {
                                proof {
                                    assert(!is_chunk(v0->Array_0@[i as int]));
                                }
                                return Err(bad);
                            },
                        }
                    },
                    _ => {
                        proof {
                            assert(!is_chunk(v0->Array_0@[i as int]));
                        }
                        return Err(bad);
                    },
                }
                i = i + 1;
            }
            proof {
                assert(all.skip(n as int).len() == 0);
                assert(chunks_view(out@) =~= Seq::new(
                    all.len(),
                    |i: int| (all[i]->Array_0@[0]->Table_0@, all[i]->Array_0@[1]->Str_0@),
                ));
            }
            Ok(out)
        },
        _ => Err(string_from("Can't convert command line content to array")),
    }
}

/// The first reason, in order, why an item of a `mode_info_set` list is not a
/// readable mode info.
pub open spec fn infos_error(items: Seq<Value>) -> Option<Seq<char>>
    decreases items.len(),
{
    if items.len() == 0 {
        None
    } else {
        match infos_error(items.drop_last()) {
            Some(e) => Some(e),
            None => match items.last() {
                Value::Table(pairs) => if mode_info_readable(pairs@) {
                    None
                } else {
                    Some(mode_info_error(pairs@))
                },
                _ => Some("Can't convert map"@),
            },
        }
    }
}

/// Reads the mode infos of a `mode_info_set` call: an array of maps.
pub fn read_mode_infos(v: &Value) -> (r: Result<Vec<ModeInfo>, String>)
    ensures
        match *v {
            Value::Array(items) => match infos_error(items@) {
                Some(e) => r matches Err(m) && m@ == e,
                None => r matches Ok(infos) && infos@.len() == items@.len() && forall|i: int|
                    0 <= i < items@.len() ==> reads_mode_info(items@[i]->Table_0@, #[trigger] infos@[i]),
            },
            _ => r matches Err(m) && m@ == "Can't convert array"@,
        },
{
    match v {
        Value::Array(items) => {
            let mut out: Vec<ModeInfo> = Vec::new();
            let mut i: usize = 0;
            proof {
                assert(items@.take(0) =~= Seq::<Value>::empty());
            }
            while i < items.len()
                invariant
                    *v == Value::Array(*items),
                    i <= items@.len(),
                    infos_error(items@.take(i as int)) is None,
                    out@.len() == i,
                    forall|j: int| 0 <= j < i ==> (#[trigger] items@[j]) is Table,
                    forall|j: int| 0 <= j < i ==> reads_mode_info(items@[j]->Table_0@, #[trigger] out@[j]),
                decreases items@.len() - i,
            {
                proof {
                    assert(items@.take(i + 1).drop_last() =~= items@.take(i as int));
                    assert(items@.take(i + 1).last() == items@[i as int]);
                }
                match &items[i] {
                    Value::Table(pairs) => match ModeInfo::from_pairs(pairs) {
                        Ok(info) => {
                            let ghost before = out@;
                            out.push(info);
                            proof {
                                assert(items@[i as int] == Value::Table(*pairs));
                                assert forall|j: int| 0 <= j < i + 1 implies reads_mode_info(
                                    items@[j]->Table_0@,
                                    #[trigger] out@[j],
                                ) by {
                                    if j < i {
                                        assert(out@[j] == before[j]);
                                    }
                                }
                            }
                        },
                        Err(e) => {
                            proof {
                                assert(items@[i as int] == Value::Table(*pairs));
                                assert(infos_error(items@.take(i + 1)) == Some(mode_info_error(pairs@)));
                                lemma_infos_error_prefix(items@, i + 1);
                            }
                            return Err(e);
                        },
                    },
                    _ => {
                        proof {
                            lemma_infos_error_prefix(items@, i + 1);
                        }
                        return Err(string_from("Can't convert map"));
                    },
                }
                i = i + 1;
            }
            proof {
                assert(items@.take(i as int) =~= items@);
            }
            Ok(out)
        },
        _ => Err(string_from("Can't convert array")),
    }
}

/// The first error of a prefix is the first error of the whole.
proof fn lemma_infos_error_prefix(items: Seq<Value>, n: int)
    requires
        0 <= n <= items.len(),
        infos_error(items.take(n)) is Some,
    ensures
        infos_error(items) == infos_error(items.take(n)),
    decreases items.len() - n,
{
    if n < items.len() {
        assert(items.take(n + 1).drop_last() =~= items.take(n));
        lemma_infos_error_prefix(items, n + 1);
    } else {
        assert(items.take(n) =~= items);
    }
}


/// The chunk of the command line as cells: the highlight its attribute pairs
/// describe, and its text's grapheme clusters.
pub open spec fn typed_chunks(chunks: Seq<(Seq<(Value, Value)>, Seq<char>)>) -> Seq<(Option<Highlight>, Seq<Seq<char>>)> {
    chunks.map_values(|c: (Seq<(Value, Value)>, Seq<char>)| (Some(highlight_of_pairs(c.0)), grapheme_clusters(c.1)))
}

/// Every key of every chunk's attributes is a string.
pub open spec fn chunk_keys_str(chunks: Seq<(Seq<(Value, Value)>, Seq<char>)>) -> bool {
    forall|i: int| 0 <= i < chunks.len() ==> all_keys_str(#[trigger] chunks[i].0)
}

/// Whether every key of the pairs is a string.
fn keys_are_str(pairs: &Vec<(Value, Value)>) -> (r: bool)
    ensures
        r == all_keys_str(pairs@),
{
    let mut i: usize = 0;
    while i < pairs.len()
        invariant
            i <= pairs@.len(),
            forall|j: int| 0 <= j < i ==> (#[trigger] pairs@[j]).0.spec_as_str() is Some,
        decreases pairs@.len() - i,
    {
        if pairs[i].0.as_str().is_none() {
            return false;
        }
        i = i + 1;
    }
    true
}

/// Whether every key of every chunk's attributes is a string.
fn chunks_keys_are_str(chunks: &Vec<(Vec<(Value, Value)>, String)>) -> (r: bool)
    ensures
        r == chunk_keys_str(chunks_view(chunks@)),
{
    let mut i: usize = 0;
    while i < chunks.len()
        invariant
            i <= chunks@.len(),
            forall|j: int| 0 <= j < i ==> all_keys_str(#[trigger] chunks_view(chunks@)[j].0),
        decreases chunks@.len() - i,
    {
        if !keys_are_str(&chunks[i].0) {
            proof {
                assert(chunks_view(chunks@)[i as int].0 == chunks@[i as int].0@);
            }
            return false;
        }
        proof {
            assert(chunks_view(chunks@)[i as int].0 == chunks@[i as int].0@);
        }
        i = i + 1;
    }
    true
}

/// The chunks with their attributes read as maps.
fn attrs_chunks(chunks: &Vec<(Vec<(Value, Value)>, String)>) -> (r: Vec<(AttrsMap<'_>, String)>)
    requires
        chunk_keys_str(chunks_view(chunks@)),
    ensures
        r@.map_values(|c: (AttrsMap, String)| chunk_cells(c)) == typed_chunks(chunks_view(chunks@)),
{
    let mut out: Vec<(AttrsMap, String)> = Vec::new();
    let mut i: usize = 0;
    while i < chunks.len()
        invariant
            i <= chunks@.len(),
            chunk_keys_str(chunks_view(chunks@)),
            out@.len() == i,
            forall|j: int| 0 <= j < i ==> chunk_cells(#[trigger] out@[j]) == typed_chunks(chunks_view(chunks@))[j],
        decreases chunks@.len() - i,
    {
        proof {
            assert(chunks_view(chunks@)[i as int].0 == chunks@[i as int].0@);
            assert(all_keys_str(chunks_view(chunks@)[i as int].0));
        }
        match AttrsMap::from_pairs(&chunks[i].0) {
            Ok(m) => {
                let ghost before = out@;
                proof {
                    lemma_highlight_of_pairs(m, chunks@[i as int].0@);
                }
                out.push((m, string_from(chunks[i].1.as_str())));
                proof {
                    assert forall|j: int| 0 <= j < i + 1 implies chunk_cells(#[trigger] out@[j])
                        == typed_chunks(chunks_view(chunks@))[j] by {
                        if j < i {
                            assert(out@[j] == before[j]);
                        }
                    }
                }
            },
            Err(_) => {
                return out;
            },
        }
        i = i + 1;
    }
    proof {
        assert(out@.map_values(|c: (AttrsMap, String)| chunk_cells(c)) =~= typed_chunks(chunks_view(chunks@)));
    }
    out
}

/// The completion menu on show.
pub struct PopupState {
    pub items: Vec<Vec<String>>,
    pub selected: i64,
    pub row: u64,
    pub col: u64,
}

/// A redraw call ready to be applied: its structured arguments read.
pub enum UiCall {
    GridLine { grid: u64, row: u64, col_start: u64, cells: Vec<Vec<Value>> },
    GridClear(u64),
    GridDestroy(u64),
    GridCursorGoto { grid: u64, row: u64, col: u64 },
    GridScroll { grid: u64, top: u64, bot: u64, left: u64, right: u64, rows: i64, cols: i64 },
    GridResize { grid: u64, columns: u64, rows: u64 },
    DefaultColorsSet { fg: u64, bg: u64, sp: u64 },
    ModeChange { mode: String, idx: u64 },
    PopupmenuSelect(i64),
    /// The mode infos where they could all be read; `None` otherwise (then
    /// nothing changes).
    ModeInfoSet { enabled: bool, infos: Option<Vec<ModeInfo>> },
    CmdlineShow {
        content: Vec<(Vec<(Value, Value)>, String)>,
        pos: u64,
        firstc: String,
        prompt: String,
        indent: u64,
        level: u64,
    },
    CmdlineHide(u64),
    CmdlinePos { pos: u64, level: u64 },
    CmdlineBlockShow(Vec<Vec<(Vec<(Value, Value)>, String)>>),
    CmdlineBlockAppend(Vec<(Vec<(Value, Value)>, String)>),
    CmdlineBlockHide,
    Mouse(bool),
    Busy(bool),
    PopupmenuShow { items: Vec<Vec<String>>, selected: i64, row: u64, col: u64 },
    PopupmenuHide,
    TablineUpdate { current: Value, tabs: Vec<(Value, Option<String>)> },
    /// A call that changes nothing here.
    Nothing,
}

pub open spec fn uint_at(args: Seq<Arg>, i: int) -> u64 {
    match args[i] {
        Arg::Uint(n) => n,
        _ => 0,
    }
}

pub open spec fn int_at(args: Seq<Arg>, i: int) -> i64 {
    match args[i] {
        Arg::Int(n) => n,
        _ => 0,
    }
}

pub open spec fn bool_at(args: Seq<Arg>, i: int) -> bool {
    match args[i] {
        Arg::Bool(b) => b,
        _ => false,
    }
}

pub open spec fn str_at(args: Seq<Arg>, i: int) -> Seq<char> {
    match args[i] {
        Arg::Str(s) => s@,
        _ => Seq::empty(),
    }
}

pub open spec fn ext_at(args: Seq<Arg>, i: int) -> Value {
    match args[i] {
        Arg::Ext(v) => v,
        _ => Value::Nil,
    }
}

pub open spec fn arg_kind(a: Arg) -> ArgKind {
    match a {
        Arg::Uint(_) => ArgKind::Uint,
        Arg::Int(_) => ArgKind::Int,
        Arg::Bool(_) => ArgKind::Bool,
        Arg::Str(_) => ArgKind::Str,
        Arg::Ext(_) => ArgKind::Ext,
    }
}

/// The arguments are of the kinds the operation's signature lists.
pub open spec fn args_typed(op: UiOp, args: Seq<Arg>) -> bool {
    &&& args.len() == op_signature(op).len()
    &&& forall|i: int| 0 <= i < args.len() ==> arg_kind(#[trigger] args[i]) == op_signature(op)[i]
}

/// The call as `call` decodes it: every operation's arguments are of the
/// kinds of its signature.
pub open spec fn call_typed(call: RedrawCall) -> bool {
    call matches RedrawCall::Op(op, args) ==> args_typed(op, args@)
}

/// A chunk list read, with each attribute key a string.
pub open spec fn chunks_read(v: Value, c: Seq<(Seq<(Value, Value)>, Seq<char>)>) -> bool {
    chunks_of(v) == Ok::<_, Seq<char>>(c) && chunk_keys_str(c)
}

/// What `prepare` gives for a call: the error where a structured argument
/// cannot be read, the call ready to be applied otherwise.
pub open spec fn prepared(call: RedrawCall, r: Result<UiCall, String>) -> bool {
    match call {
        RedrawCall::Op(op, args) => {
            let a = args@;
            match op {
                UiOp::GridLine => match cells_of(ext_at(a, 3)) {
                    Ok(c) => r matches Ok(UiCall::GridLine { grid, row, col_start, cells }) && grid == uint_at(a, 0)
                        && row == uint_at(a, 1) && col_start == uint_at(a, 2) && cells@.map_values(
                        |e: Vec<Value>| e@,
                    ) == c,
                    Err(e) => r matches Err(m) && m@ == e,
                },
                UiOp::GridClear => r == Ok::<_, String>(UiCall::GridClear(uint_at(a, 0))),
                UiOp::GridDestroy => r == Ok::<_, String>(UiCall::GridDestroy(uint_at(a, 0))),
                UiOp::GridCursorGoto => r == Ok::<_, String>(
                    UiCall::GridCursorGoto { grid: uint_at(a, 0), row: uint_at(a, 1), col: uint_at(a, 2) },
                ),
                UiOp::GridScroll => r == Ok::<_, String>(
                    UiCall::GridScroll {
                        grid: uint_at(a, 0),
                        top: uint_at(a, 1),
                        bot: uint_at(a, 2),
                        left: uint_at(a, 3),
                        right: uint_at(a, 4),
                        rows: int_at(a, 5),
                        cols: int_at(a, 6),
                    },
                ),
                UiOp::GridResize => r == Ok::<_, String>(
                    UiCall::GridResize { grid: uint_at(a, 0), columns: uint_at(a, 1), rows: uint_at(a, 2) },
                ),
                UiOp::DefaultColorsSet => r == Ok::<_, String>(
                    UiCall::DefaultColorsSet { fg: uint_at(a, 0), bg: uint_at(a, 1), sp: uint_at(a, 2) },
                ),
                UiOp::ModeChange => r matches Ok(UiCall::ModeChange { mode, idx }) && mode@ == str_at(a, 0) && idx
                    == uint_at(a, 1),
                UiOp::PopupmenuSelect => r == Ok::<_, String>(UiCall::PopupmenuSelect(int_at(a, 0))),
                UiOp::ModeInfoSet => r matches Ok(UiCall::ModeInfoSet { enabled, infos }) && enabled == bool_at(a, 0)
                    && match ext_at(a, 1) {
                    Value::Array(items) => match infos_error(items@) {
                        Some(_) => infos is None,
                        None => infos matches Some(v) && v@.len() == items@.len() && forall|i: int|
                            0 <= i < items@.len() ==> reads_mode_info(items@[i]->Table_0@, #[trigger] v@[i]),
                    },
                    _ => infos is None,
                },
                UiOp::CmdlineShow => match chunks_of(ext_at(a, 0)) {
                    Err(e) => r matches Err(m) && m@ == e,
                    Ok(c) => if chunk_keys_str(c) {
                        r matches Ok(UiCall::CmdlineShow { content, pos, firstc, prompt, indent, level })
                            && chunks_view(content@) == c && pos == uint_at(a, 1) && firstc@ == str_at(a, 2)
                            && prompt@ == str_at(a, 3) && indent == uint_at(a, 4) && level == uint_at(a, 5)
                    } else {
                        r matches Err(m) && m@ == "Can't convert map key to string"@
                    },
                },
                UiOp::CmdlineHide => r == Ok::<_, String>(UiCall::CmdlineHide(uint_at(a, 0))),
                UiOp::CmdlinePos => r == Ok::<_, String>(UiCall::CmdlinePos { pos: uint_at(a, 0), level: uint_at(a, 1) }),
                UiOp::CmdlineBlockShow => match ext_at(a, 0) {
                    Value::Array(lines) => match block_error(lines@) {
                        Some(e) => r matches Err(m) && m@ == e,
                        None => r matches Ok(UiCall::CmdlineBlockShow(b)) && b@.len() == lines@.len() && forall|i: int|
                            0 <= i < lines@.len() ==> chunks_read(lines@[i], chunks_view(#[trigger] b@[i]@)),
                    },
                    _ => r matches Err(m) && m@ == "Can't convert command line block to array"@,
                },
                UiOp::CmdlineBlockAppend => match chunks_of(ext_at(a, 0)) {
                    Err(e) => r matches Err(m) && m@ == e,
                    Ok(c) => if chunk_keys_str(c) {
                        r matches Ok(UiCall::CmdlineBlockAppend(content)) && chunks_view(content@) == c
                    } else {
                        r matches Err(m) && m@ == "Can't convert map key to string"@
                    },
                },
                _ => r == Ok::<_, String>(UiCall::Nothing),
            }
        },
        RedrawCall::Mouse(on) => r == Ok::<_, String>(UiCall::Mouse(on)),
        RedrawCall::Busy(b) => r == Ok::<_, String>(UiCall::Busy(b)),
        RedrawCall::PopupmenuShow { items, selected, row, col } => r == Ok::<_, String>(
            UiCall::PopupmenuShow { items, selected, row, col },
        ),
        RedrawCall::PopupmenuHide => r == Ok::<_, String>(UiCall::PopupmenuHide),
        RedrawCall::TablineUpdate { current, tabs } => r == Ok::<_, String>(UiCall::TablineUpdate { current, tabs }),
        RedrawCall::CmdlineBlockHide => r == Ok::<_, String>(UiCall::CmdlineBlockHide),
        _ => r == Ok::<_, String>(UiCall::Nothing),
    }
}

/// The first reason, in order, why a line of a command-line block cannot be read.
pub open spec fn block_error(lines: Seq<Value>) -> Option<Seq<char>>
    decreases lines.len(),
{
    if lines.len() == 0 {
        None
    } else {
        match block_error(lines.drop_last()) {
            Some(e) => Some(e),
            None => match chunks_of(lines.last()) {
                Err(e) => Some(e),
                Ok(c) => if chunk_keys_str(c) {
                    None
                } else {
                    Some("Can't convert map key to string"@)
                },
            },
        }
    }
}

proof fn lemma_block_error_prefix(lines: Seq<Value>, n: int)
    requires
        0 <= n <= lines.len(),
        block_error(lines.take(n)) is Some,
    ensures
        block_error(lines) == block_error(lines.take(n)),
    decreases lines.len() - n,
{
    if n < lines.len() {
        assert(lines.take(n + 1).drop_last() =~= lines.take(n));
        lemma_block_error_prefix(lines, n + 1);
    } else {
        assert(lines.take(n) =~= lines);
    }
}

fn take_arg(args: &mut Vec<Arg>) -> (a: Arg)
    requires
        old(args)@.len() > 0,
    ensures
        a == old(args)@[0],
        final(args)@ == old(args)@.skip(1),
{
    let a = args.remove(0);
    proof {
        assert(args@ =~= old(args)@.skip(1));
    }
    a
}

fn uint_of(a: Arg) -> (n: u64)
    requires
        a is Uint,
    ensures
        n == a->Uint_0,
{
    match a {
        Arg::Uint(n) => n,
        _ => 0,
    }
}

fn int_of(a: Arg) -> (n: i64)
    requires
        a is Int,
    ensures
        n == a->Int_0,
{
    match a {
        Arg::Int(n) => n,
        _ => 0,
    }
}

fn str_of(a: Arg) -> (s: String)
    requires
        a is Str,
    ensures
        s@ == a->Str_0@,
{
    match a {
        Arg::Str(s) => s,
        _ => String::new(),
    }
}

fn bool_of(a: Arg) -> (b: bool)
    requires
        a is Bool,
    ensures
        b == a->Bool_0,
{
    match a {
        Arg::Bool(b) => b,
        _ => false,
    }
}

fn ext_of(a: Arg) -> (v: Value)
    requires
        a is Ext,
    ensures
        v == a->Ext_0,
{
    match a {
        Arg::Ext(v) => v,
        _ => Value::Nil,
    }
}

/// Reads a chunk list and checks its attribute keys.
fn read_content(v: Value) -> (r: Result<Vec<(Vec<(Value, Value)>, String)>, String>)
    ensures
        match chunks_of(v) {
            Err(e) => r matches Err(m) && m@ == e,
            Ok(c) => if chunk_keys_str(c) {
                r matches Ok(x) && chunks_view(x@) == c
            } else {
                r matches Err(m) && m@ == "Can't convert map key to string"@
            },
        },
{
    match read_chunks(v) {
        Ok(c) => {
            if chunks_keys_are_str(&c) {
                Ok(c)
            } else {
                Err(string_from("Can't convert map key to string"))
            }
        },
        Err(e) => Err(e),
    }
}

/// Reads the structured arguments of a decoded redraw call: the cells of a
/// `grid_line`, the mode infos of `mode_info_set` (none where one cannot be
/// read), and the chunks of the command line and its block, with the error
/// where one cannot be read.
pub fn prepare(call: RedrawCall) -> (r: Result<UiCall, String>)
    requires
        call_typed(call),
    ensures
        prepared(call, r),
{
    match call {
        RedrawCall::Op(op, args) => {
            let ghost a = args@;
            let mut args = args;
            match op {
                UiOp::GridLine => {
                    let g = uint_of(take_arg(&mut args));
                    let row = uint_of(take_arg(&mut args));
                    let col_start = uint_of(take_arg(&mut args));
                    let v = ext_of(take_arg(&mut args));
                    proof {
                        assert(v == ext_at(a, 3));
                    }
                    match read_cells(v) {
                        Ok(cells) => Ok(UiCall::GridLine { grid: g, row, col_start, cells }),
                        Err(e) => Err(e),
                    }
                },
                UiOp::GridClear => Ok(UiCall::GridClear(uint_of(take_arg(&mut args)))),
                UiOp::GridDestroy => Ok(UiCall::GridDestroy(uint_of(take_arg(&mut args)))),
                UiOp::GridCursorGoto => {
                    let g = uint_of(take_arg(&mut args));
                    let row = uint_of(take_arg(&mut args));
                    let col = uint_of(take_arg(&mut args));
                    Ok(UiCall::GridCursorGoto { grid: g, row, col })
                },
                UiOp::GridScroll => {
                    let g = uint_of(take_arg(&mut args));
                    let top = uint_of(take_arg(&mut args));
                    let bot = uint_of(take_arg(&mut args));
                    let left = uint_of(take_arg(&mut args));
                    let right = uint_of(take_arg(&mut args));
                    let rows = int_of(take_arg(&mut args));
                    let cols = int_of(take_arg(&mut args));
                    Ok(UiCall::GridScroll { grid: g, top, bot, left, right, rows, cols })
                },
                UiOp::GridResize => {
                    let g = uint_of(take_arg(&mut args));
                    let columns = uint_of(take_arg(&mut args));
                    let rows = uint_of(take_arg(&mut args));
                    Ok(UiCall::GridResize { grid: g, columns, rows })
                },
                UiOp::DefaultColorsSet => {
                    let fg = uint_of(take_arg(&mut args));
                    let bg = uint_of(take_arg(&mut args));
                    let sp = uint_of(take_arg(&mut args));
                    Ok(UiCall::DefaultColorsSet { fg, bg, sp })
                },
                UiOp::ModeChange => {
                    let mode = str_of(take_arg(&mut args));
                    let idx = uint_of(take_arg(&mut args));
                    Ok(UiCall::ModeChange { mode, idx })
                },
                UiOp::PopupmenuSelect => Ok(UiCall::PopupmenuSelect(int_of(take_arg(&mut args)))),
                UiOp::ModeInfoSet => {
                    let enabled = bool_of(take_arg(&mut args));
                    let v = ext_of(take_arg(&mut args));
                    let infos = match read_mode_infos(&v) {
                        Ok(infos) => Some(infos),
                        Err(_) => None,
                    };
                    Ok(UiCall::ModeInfoSet { enabled, infos })
                },
                UiOp::CmdlineShow => {
                    let v = ext_of(take_arg(&mut args));
                    let pos = uint_of(take_arg(&mut args));
                    let firstc = str_of(take_arg(&mut args));
                    let prompt = str_of(take_arg(&mut args));
                    let indent = uint_of(take_arg(&mut args));
                    let level = uint_of(take_arg(&mut args));
                    match read_content(v) {
                        Ok(content) => Ok(UiCall::CmdlineShow { content, pos, firstc, prompt, indent, level }),
                        Err(e) => Err(e),
                    }
                },
                UiOp::CmdlineHide => Ok(UiCall::CmdlineHide(uint_of(take_arg(&mut args)))),
                UiOp::CmdlinePos => {
                    let pos = uint_of(take_arg(&mut args));
                    let level = uint_of(take_arg(&mut args));
                    Ok(UiCall::CmdlinePos { pos, level })
                },
                UiOp::CmdlineBlockShow => {
                    let v = ext_of(take_arg(&mut args));
                    match v {
                        Value::Array(lines) => {
                            let ghost all = lines@;
                            let mut rest = lines;
                            let n = rest.len();
                            let mut out: Vec<Vec<(Vec<(Value, Value)>, String)>> = Vec::new();
                            let mut i: usize = 0;
                            proof {
                                assert(all.take(0) =~= Seq::<Value>::empty());
                            }
                            while i < n
                                invariant
                                    call matches RedrawCall::Op(o2, ar) && o2 == UiOp::CmdlineBlockShow && ar@ == a,
                                    ext_at(a, 0) is Array && ext_at(a, 0)->Array_0@ == all,
                                    n == all.len(),
                                    i <= n,
                                    rest@ == all.skip(i as int),
                                    block_error(all.take(i as int)) is None,
                                    out@.len() == i,
                                    forall|j: int| 0 <= j < i ==> chunks_read(all[j], chunks_view(#[trigger] out@[j]@)),
                                decreases n - i,
                            {
                                let line = rest.remove(0);
                                proof {
                                    assert(line == all[i as int]);
                                    assert(rest@ =~= all.skip(i + 1));
                                    assert(all.take(i + 1).drop_last() =~= all.take(i as int));
                                    assert(all.take(i + 1).last() == all[i as int]);
                                }
                                match read_content(line) {
                                    Ok(c) => {
                                        let ghost before = out@;
                                        out.push(c);
                                        proof {
                                            assert forall|j: int| 0 <= j < i + 1 implies chunks_read(
                                                all[j],
                                                chunks_view(#[trigger] out@[j]@),
                                            ) by {
                                                if j < i {
                                                    assert(out@[j] == before[j]);
                                                }
                                            }
                                        }
                                    },
                                    Err(e) => {
                                        proof {
                                            lemma_block_error_prefix(all, i + 1);
                                        }
                                        return Err(e);
                                    },
                                }
                                i = i + 1;
                            }
                            proof {
                                assert(all.take(n as int) =~= all);
                            }
                            Ok(UiCall::CmdlineBlockShow(out))
                        },
                        _ => Err(string_from("Can't convert command line block to array")),
                    }
                },
                UiOp::CmdlineBlockAppend => {
                    let v = ext_of(take_arg(&mut args));
                    match read_content(v) {
                        Ok(content) => Ok(UiCall::CmdlineBlockAppend(content)),
                        Err(e) => Err(e),
                    }
                },
                _ => Ok(UiCall::Nothing),
            }
        },
        RedrawCall::Mouse(on) => Ok(UiCall::Mouse(on)),
        RedrawCall::Busy(b) => Ok(UiCall::Busy(b)),
        RedrawCall::PopupmenuShow { items, selected, row, col } => Ok(UiCall::PopupmenuShow { items, selected, row, col }),
        RedrawCall::PopupmenuHide => Ok(UiCall::PopupmenuHide),
        RedrawCall::TablineUpdate { current, tabs } => Ok(UiCall::TablineUpdate { current, tabs }),
        RedrawCall::CmdlineBlockHide => Ok(UiCall::CmdlineBlockHide),
        _ => Ok(UiCall::Nothing),
    }
}


/// `n` is grid `o` with a line written: row `row` from column `col_start`
/// on, by the entries `cells`, in the highlights of `hl`.
pub open spec fn line_written(o: Grid, n: Grid, row: int, col_start: int, cells: Seq<Seq<Value>>, hl: HighlightMap) -> bool {
    &&& n.spec_id() == o.spec_id()
    &&& n.model.well_formed()
    &&& n.model.rows == o.model.rows
    &&& n.model.columns == o.model.columns
    &&& n.model.cur_row == o.model.cur_row
    &&& n.model.cur_col == o.model.cur_col
    &&& forall|r: int| 0 <= r < o.model.rows && r != row ==> #[trigger] n.model.model@[r] == o.model.model@[r]
    &&& forall|c: int| 0 <= c < o.model.columns ==> #[trigger] n.model.cell(row, c) == line_cell(
        cells,
        cells.len() as int,
        col_start,
        hl,
        c,
        o.model.cell(row, c),
    )
}

/// `n` is grid `o` cleared to the highlight `hl` by `Grid::clear`: all rows but the last.
pub open spec fn grid_cleared(o: Grid, n: Grid, hl: Highlight) -> bool {
    &&& n.spec_id() == o.spec_id()
    &&& n.model.well_formed()
    &&& n.model.rows == o.model.rows
    &&& n.model.columns == o.model.columns
    &&& n.model.cur_row == o.model.cur_row
    &&& n.model.cur_col == o.model.cur_col
    &&& forall|r: int, c: int| 0 <= r < o.model.rows && 0 <= c < o.model.columns ==> #[trigger] n.model.cell(r, c)
        == (if r < o.model.rows - 1 { cleared_cell(hl) } else { o.model.cell(r, c) })
}

/// `n` is grid `o` with the cursor moved to `row`, `col` where that is
/// inside it; `changed` is what to repaint.
pub open spec fn cursor_moved(o: Grid, n: Grid, row: int, col: int, changed: Seq<ModelRect>) -> bool {
    &&& n.spec_id() == o.spec_id()
    &&& n.model.well_formed()
    &&& n.model.model == o.model.model
    &&& n.model.rows == o.model.rows
    &&& n.model.columns == o.model.columns
    &&& (row >= o.model.rows || col >= o.model.columns ==> {
        &&& changed == Seq::<ModelRect>::empty()
        &&& n.model.cur_row == o.model.cur_row
        &&& n.model.cur_col == o.model.cur_col
    })
    &&& (row < o.model.rows && col < o.model.columns ==> {
        &&& n.model.cur_row == row
        &&& n.model.cur_col == col
        &&& changed == spec_vec_join(
            seq![
                ModelRect {
                    top: o.model.cur_row,
                    bot: o.model.cur_row,
                    left: o.model.cur_col,
                    right: o.model.cur_col,
                },
            ],
            ModelRect { top: row as usize, bot: row as usize, left: col as usize, right: col as usize },
        )
    })
}

/// `n` is grid `o` with the region `top..bot`, `left..right` scrolled by
/// `rows` as `UiModel::scroll` does it, with `hl` for the cleared rows.
pub open spec fn grid_scrolled(o: Grid, n: Grid, top: int, bot: int, left: int, right: int, rows: int, hl: Highlight) -> bool {
    &&& n.spec_id() == o.spec_id()
    &&& n.model.well_formed()
    &&& n.model.rows == o.model.rows
    &&& n.model.columns == o.model.columns
    &&& n.model.cur_row == o.model.cur_row
    &&& n.model.cur_col == o.model.cur_col
    &&& forall|r: int, c: int| 0 <= r < o.model.rows && 0 <= c < o.model.columns ==> #[trigger] n.model.cell(r, c)
        == scrolled_cell(o.model, top, bot - 1, left, right - 1, rows, hl, r, c)
}

/// `n` is grid `o` given `rows` rows of `columns` cells.
pub open spec fn grid_resized(o: Grid, n: Grid, columns: int, rows: int) -> bool {
    &&& n.spec_id() == o.spec_id()
    &&& n.model.well_formed()
    &&& n.model.rows == rows
    &&& n.model.columns == columns
    &&& (o.model.rows == rows && o.model.columns == columns ==> n.model == o.model)
    &&& (!(o.model.rows == rows && o.model.columns == columns) ==> {
        &&& n.model.cur_row == 0
        &&& n.model.cur_col == 0
        &&& forall|r: int, c: int| 0 <= r < rows && 0 <= c < columns ==> #[trigger] n.model.cell(r, c)
            == cleared_cell(plain_highlight())
    })
}

/// The state that redraw calls change.
pub struct UiState {
    pub grids: FnvHashMap<u64, Grid>,
    pub hl: HighlightMap,
    pub mode: Mode,
    pub mouse_enabled: bool,
    pub busy: bool,
    pub popup: Option<PopupState>,
    pub tabs: Vec<(Value, Option<String>)>,
    pub current_tab: Option<Value>,
    pub cmdline: CmdLine,
}

/// A repaint event names this grid (or none) and this much of it.
pub open spec fn event_is(ev: RepaintGridEvent, grid: Option<u64>, mode: RepaintView) -> bool {
    ev.grid_id == grid && ev.mode@ == mode
}

impl UiState {
    /// Every grid's model is consistent.
    pub open spec fn well_formed(&self) -> bool {
        forall|k: u64| #[trigger] self.grids@.contains_key(k) ==> self.grids@[k].model.well_formed()
    }

    /// The call can be applied: the grid it names is there and what it
    /// writes or scrolls lies inside it, sizes fit in memory, and the command
    /// line has the level or block it acts on. A call that is not applicable
    /// breaks the protocol.
    pub open spec fn applicable(&self, c: UiCall) -> bool {
        match c {
            UiCall::GridLine { grid, row, col_start, cells } => self.grids@.contains_key(grid) && {
                let g = self.grids@[grid];
                &&& row < g.model.rows
                &&& col_start <= usize::MAX
                &&& line_fits(cells@.map_values(|e: Vec<Value>| e@), col_start as int, g.model.columns as int)
                &&& entry_start(cells@.map_values(|e: Vec<Value>| e@), col_start as int, cells@.len() as int) > 0
            },
            UiCall::GridClear(grid) => self.grids@.contains_key(grid) && self.grids@[grid].model.rows > 0
                && self.grids@[grid].model.columns > 0,
            UiCall::GridCursorGoto { grid, row, col } => self.grids@.contains_key(grid) && row <= usize::MAX && col
                <= usize::MAX,
            UiCall::GridScroll { grid, top, bot, left, right, rows, cols } => self.grids@.contains_key(grid) && {
                let g = self.grids@[grid];
                &&& top <= i64::MAX
                &&& 1 <= bot <= i64::MAX
                &&& bot - 1 <= g.model.rows
                &&& left < right <= g.model.columns
                &&& rows != 0
                &&& (rows > 0 ==> rows <= bot)
                &&& (rows < 0 ==> top - rows - 1 <= g.model.rows && top - rows <= i64::MAX)
            },
            UiCall::GridResize { grid, columns, rows } => columns <= usize::MAX && rows <= usize::MAX,
            UiCall::ModeChange { mode, idx } => idx <= usize::MAX,
            UiCall::CmdlineShow { content, pos, firstc, prompt, indent, level } => {
                &&& chunk_keys_str(chunks_view(content@))
                &&& indent <= usize::MAX
                &&& !(level == 0 && self.cmdline.levels@.len() == 0)
            },
            UiCall::CmdlinePos { pos, level } => level > 0,
            UiCall::CmdlineBlockShow(b) => forall|i: int| 0 <= i < b@.len() ==> chunk_keys_str(chunks_view(#[trigger] b@[i]@)),
            UiCall::CmdlineBlockAppend(content) => chunk_keys_str(chunks_view(content@)) && self.cmdline.block is Some,
            _ => true,
        }
    }
}

/// What applying a call does: the state `n` after it, from `o`, and the
/// repaint event `ev`.
pub open spec fn stepped(o: UiState, n: UiState, c: UiCall, ev: RepaintGridEvent) -> bool {
    match c {
        UiCall::GridLine { grid, row, col_start, cells } => {
            let cv = cells@.map_values(|e: Vec<Value>| e@);
            &&& n == UiState { grids: n.grids, ..o }
            &&& n.grids@ == o.grids@.insert(grid, n.grids@[grid])
            &&& line_written(o.grids@[grid], n.grids@[grid], row as int, col_start as int, cv, o.hl)
            &&& event_is(
                ev,
                Some(grid),
                RepaintView::Area(
                    ModelRect {
                        top: row as usize,
                        bot: row as usize,
                        left: col_start as usize,
                        right: (entry_start(cv, col_start as int, cells@.len() as int) - 1) as usize,
                    },
                ),
            )
        },
        UiCall::GridClear(grid) => {
            &&& n == UiState { grids: n.grids, ..o }
            &&& n.grids@ == o.grids@.insert(grid, n.grids@[grid])
            &&& grid_cleared(o.grids@[grid], n.grids@[grid], o.hl.default_hl)
            &&& event_is(ev, Some(grid), RepaintView::All)
        },
        UiCall::GridDestroy(grid) => {
            &&& n == UiState { grids: n.grids, ..o }
            &&& n.grids@ == o.grids@.remove(grid)
            &&& event_is(ev, None, RepaintView::All)
        },
        UiCall::GridCursorGoto { grid, row, col } => {
            &&& n == UiState { grids: n.grids, ..o }
            &&& n.grids@ == o.grids@.insert(grid, n.grids@[grid])
            &&& ev.grid_id == Some(grid)
            &&& ev.mode@ matches RepaintView::AreaList(changed) && cursor_moved(
                o.grids@[grid],
                n.grids@[grid],
                row as int,
                col as int,
                changed,
            )
        },
        UiCall::GridScroll { grid, top, bot, left, right, rows, cols } => {
            &&& n == UiState { grids: n.grids, ..o }
            &&& n.grids@ == o.grids@.insert(grid, n.grids@[grid])
            &&& grid_scrolled(
                o.grids@[grid],
                n.grids@[grid],
                top as int,
                bot as int,
                left as int,
                right as int,
                rows as int,
                o.hl.default_hl,
            )
            &&& event_is(
                ev,
                Some(grid),
                RepaintView::Area(
                    ModelRect { top: top as usize, bot: (bot - 1) as usize, left: left as usize, right: (right - 1) as usize },
                ),
            )
        },
        UiCall::GridResize { grid, columns, rows } => {
            &&& n == UiState { grids: n.grids, ..o }
            &&& n.grids@ == o.grids@.insert(grid, n.grids@[grid])
            &&& (o.grids@.contains_key(grid) ==> grid_resized(o.grids@[grid], n.grids@[grid], columns as int, rows as int))
            &&& (!o.grids@.contains_key(grid) ==> n.grids@[grid].spec_id() == grid && n.grids@[grid].model.well_formed()
                && n.grids@[grid].model.rows == rows && n.grids@[grid].model.columns == columns && n.grids@[grid].model.cur_row
                == 0 && n.grids@[grid].model.cur_col == 0 && forall|r: int, c: int|
                0 <= r < rows && 0 <= c < columns ==> #[trigger] n.grids@[grid].model.cell(r, c) == cleared_cell(
                plain_highlight(),
            ))
            &&& event_is(ev, Some(grid), RepaintView::All)
        },
        UiCall::DefaultColorsSet { fg, bg, sp } => {
            &&& n == UiState {
                hl: HighlightMap {
                    fg_color: spec_from_indexed(fg),
                    bg_color: spec_from_indexed(bg),
                    sp_color: spec_from_indexed(sp),
                    cterm_fg_color: spec_from_indexed(fg),
                    cterm_bg_color: spec_from_indexed(bg),
                    ..o.hl
                },
                ..o
            }
            &&& event_is(ev, None, RepaintView::All)
        },
        UiCall::ModeChange { mode, idx } => {
            &&& n == UiState { mode: Mode { mode: mode_of(mode@), idx: idx as usize, info: o.mode.info }, ..o }
            &&& event_is(ev, None, RepaintView::All)
        },
        UiCall::PopupmenuSelect(i) => {
            &&& n == UiState {
                popup: match o.popup {
                    Some(p) => Some(PopupState { selected: i, ..p }),
                    None => None,
                },
                ..o
            }
            &&& event_is(ev, None, RepaintView::Nothing)
        },
        UiCall::ModeInfoSet { enabled, infos } => {
            &&& n == match infos {
                Some(v) => UiState {
                    mode: Mode { info: if enabled { Some(v) } else { None }, ..o.mode },
                    ..o
                },
                None => o,
            }
            &&& event_is(ev, None, RepaintView::Nothing)
        },
        UiCall::CmdlineShow { content, pos, firstc, prompt, indent, level } => {
            let rows = prompt_rows(firstc@, prompt@, indent as int);
            &&& n == UiState { cmdline: n.cmdline, ..o }
            &&& levels_view(n.cmdline.levels@) == shown_levels(
                levels_view(o.cmdline.levels@),
                level as int,
                LevelView {
                    lines: lines_with_typed(rows, typed_chunks(chunks_view(content@))),
                    prompt_offset: (if rows.len() == 0 { 0 } else { rows.last().len() as int }),
                    pos: pos as int,
                },
            )
            &&& n.cmdline.block == o.cmdline.block
            &&& n.cmdline.displayed
            &&& event_is(ev, None, RepaintView::Nothing)
        },
        UiCall::CmdlineHide(level) => {
            &&& n == UiState { cmdline: n.cmdline, ..o }
            &&& levels_view(n.cmdline.levels@) == hidden_levels(levels_view(o.cmdline.levels@), level as int)
            &&& n.cmdline.displayed == (o.cmdline.displayed && n.cmdline.levels@.len() != 0)
            &&& n.cmdline.block == o.cmdline.block
            &&& event_is(ev, None, RepaintView::Nothing)
        },
        UiCall::CmdlinePos { pos, level } => {
            &&& n == UiState { cmdline: n.cmdline, ..o }
            &&& n.cmdline.levels@.len() == o.cmdline.levels@.len()
            &&& forall|i: int| 0 <= i < o.cmdline.levels@.len() ==> (#[trigger] n.cmdline.levels@[i])@ == (if i == level - 1 {
                LevelView { pos: pos as int, ..o.cmdline.levels@[i]@ }
            } else {
                o.cmdline.levels@[i]@
            })
            &&& n.cmdline.block == o.cmdline.block
            &&& n.cmdline.displayed == o.cmdline.displayed
            &&& event_is(ev, None, RepaintView::Nothing)
        },
        UiCall::CmdlineBlockShow(b) => {
            &&& n == UiState { cmdline: n.cmdline, ..o }
            &&& n.cmdline.block matches Some(lines) && lines@.len() == b@.len() && forall|i: int|
                0 <= i < b@.len() ==> crate::cmdline::chunks_view((#[trigger] lines@[i])@) == typed_chunks(chunks_view(b@[i]@))
            &&& levels_view(n.cmdline.levels@) == levels_view(o.cmdline.levels@)
            &&& n.cmdline.displayed == o.cmdline.displayed
            &&& event_is(ev, None, RepaintView::Nothing)
        },
        UiCall::CmdlineBlockAppend(content) => {
            &&& n == UiState { cmdline: n.cmdline, ..o }
            &&& n.cmdline.block matches Some(lines) && lines_view(lines@) == lines_view(o.cmdline.block->0@).push(
                typed_chunks(chunks_view(content@)),
            )
            &&& levels_view(n.cmdline.levels@) == levels_view(o.cmdline.levels@)
            &&& n.cmdline.displayed == o.cmdline.displayed
            &&& event_is(ev, None, RepaintView::Nothing)
        },
        UiCall::CmdlineBlockHide => {
            &&& n == UiState { cmdline: n.cmdline, ..o }
            &&& n.cmdline.block is None
            &&& levels_view(n.cmdline.levels@) == levels_view(o.cmdline.levels@)
            &&& n.cmdline.displayed == o.cmdline.displayed
            &&& event_is(ev, None, RepaintView::Nothing)
        },
        UiCall::Mouse(on) => n == UiState { mouse_enabled: on, ..o } && event_is(ev, None, RepaintView::Nothing),
        UiCall::Busy(b) => n == UiState { busy: b, ..o } && event_is(ev, None, RepaintView::All),
        UiCall::PopupmenuShow { items, selected, row, col } => n == UiState {
            popup: Some(PopupState { items, selected, row, col }),
            ..o
        } && event_is(ev, None, RepaintView::Nothing),
        UiCall::PopupmenuHide => n == UiState { popup: None, ..o } && event_is(ev, None, RepaintView::Nothing),
        UiCall::TablineUpdate { current, tabs } => n == UiState { current_tab: Some(current), tabs, ..o } && event_is(
            ev,
            None,
            RepaintView::Nothing,
        ),
        UiCall::Nothing => n == o && event_is(ev, None, RepaintView::Nothing),
    }
}


impl UiState {
    /// The state at start: no grid, default highlights (terminal colors where
    /// `cterm_colors`), normal mode, mouse on, no menu, no tab, no command line.
    pub fn new(cterm_colors: bool) -> (s: UiState)
        ensures
            s.well_formed(),
            s.grids@ == Map::<u64, Grid>::empty(),
            s.hl.cterm_color == cterm_colors,
            s.mode.mode == crate::mode::NvimMode::Normal,
            s.mode.info is None,
            s.mouse_enabled,
            !s.busy,
            s.popup is None,
            s.tabs@.len() == 0,
            s.current_tab is None,
            s.cmdline.levels@.len() == 0,
            s.cmdline.block is None,
            !s.cmdline.displayed,
    {
        let mut hl = HighlightMap::new();
        hl.set_use_cterm(cterm_colors);
        UiState {
            grids: fnv_map_new(),
            hl,
            mode: Mode::new(),
            mouse_enabled: true,
            busy: false,
            popup: None,
            tabs: Vec::new(),
            current_tab: None,
            cmdline: CmdLine::new(),
        }
    }

    /// Whether the call can be applied (see `applicable`).
    pub fn can_apply(&self, c: &UiCall) -> (r: bool)
        requires
            self.well_formed(),
        ensures
            r == self.applicable(*c),
    {
        match c {
            UiCall::GridLine { grid, row, col_start, cells } => match fnv_map_get(&self.grids, *grid) {
                Some(g) => {
                    proof {
                        assert(self.grids@.contains_key(*grid));
                        assert(entries_view_is(cells@));
                    }
                    if *row >= g.model.rows as u64 || *col_start > usize::MAX as u64 {
                        false
                    } else {
                        g.line_is_writable(*row as usize, *col_start as usize, cells)
                    }
                },
                None => false,
            },
            UiCall::GridClear(grid) => match fnv_map_get(&self.grids, *grid) {
                Some(g) => g.model.rows > 0 && g.model.columns > 0,
                None => false,
            },
            UiCall::GridCursorGoto { grid, row, col } => fnv_map_get(&self.grids, *grid).is_some() && *row
                <= usize::MAX as u64 && *col <= usize::MAX as u64,
            UiCall::GridScroll { grid, top, bot, left, right, rows, cols } => match fnv_map_get(&self.grids, *grid) {
                Some(g) => {
                    if !(*top <= i64::MAX as u64 && 1 <= *bot && *bot <= i64::MAX as u64 && *bot - 1 <= g.model.rows as u64
                        && *left < *right && *right <= g.model.columns as u64 && *rows != 0) {
                        false
                    } else if *rows > 0 {
                        *rows as u64 <= *bot
                    } else {
                        let reach = *top as i128 - *rows as i128;
                        reach <= i64::MAX as i128 && reach - 1 <= g.model.rows as i128
                    }
                },
                None => false,
            },
            UiCall::GridResize { grid, columns, rows } => *columns <= usize::MAX as u64 && *rows <= usize::MAX as u64,
            UiCall::ModeChange { mode, idx } => *idx <= usize::MAX as u64,
            UiCall::CmdlineShow { content, pos, firstc, prompt, indent, level } => {
                chunks_keys_are_str(content) && *indent <= usize::MAX as u64 && !(*level == 0
                    && self.cmdline.levels.len() == 0)
            },
            UiCall::CmdlinePos { pos, level } => *level > 0,
            UiCall::CmdlineBlockShow(b) => {
                let mut i: usize = 0;
                while i < b.len()
                    invariant
                        *c == UiCall::CmdlineBlockShow(*b),
                        i <= b@.len(),
                        forall|j: int| 0 <= j < i ==> chunk_keys_str(chunks_view(#[trigger] b@[j]@)),
                    decreases b@.len() - i,
                {
                    if !chunks_keys_are_str(&b[i]) {
                        proof {
                            assert(!chunk_keys_str(chunks_view(b@[i as int]@)));
                            assert(!(forall|j: int| 0 <= j < b@.len() ==> chunk_keys_str(chunks_view(#[trigger] b@[j]@))));
                            assert(*c matches UiCall::CmdlineBlockShow(bb) && bb@ == b@);
                            assert(!self.applicable(*c));
                        }
                        return false;
                    }
                    i = i + 1;
                }
                true
            },
            UiCall::CmdlineBlockAppend(content) => chunks_keys_are_str(content) && self.cmdline.block.is_some(),
            _ => true,
        }
    }
}

/// The entries of a `grid_line` call as plain values, as `Grid` reads them.
pub open spec fn entries_view_is(cells: Seq<Vec<Value>>) -> bool {
    crate::grid::entries_view(cells) == cells.map_values(|e: Vec<Value>| e@)
}


impl UiState {
    /// Applies a prepared redraw call: changes the state as `stepped` says
    /// and gives what to repaint.
    pub fn apply(&mut self, c: UiCall) -> (ev: RepaintGridEvent)
        requires
            old(self).well_formed(),
            old(self).applicable(c),
        ensures
            final(self).well_formed(),
            stepped(*old(self), *final(self), c, ev),
    {
        match c {
            UiCall::GridLine { grid, row, col_start, cells } => {
                let mut g = match fnv_map_remove(&mut self.grids, grid) {
                    Some(g) => g,
                    None => {
                        return RepaintGridEvent::nothing();
                    },
                };
                let ghost og = g;
                proof {
                    assert(entries_view_is(cells@));
                }
                let rect = g.line(row as usize, col_start as usize, &cells, &self.hl);
                fnv_map_insert(&mut self.grids, grid, g);
                proof {
                    assert(self.grids@ =~= old(self).grids@.insert(grid, self.grids@[grid]));
                    assert forall|k: u64| #[trigger] self.grids@.contains_key(k) implies self.grids@[k].model.well_formed() by {
                        if k != grid {
                            assert(old(self).grids@.contains_key(k));
                        }
                    }
                }
                RepaintGridEvent::new(grid, RepaintMode::Area(rect))
            },
            UiCall::GridClear(grid) => {
                let mut g = match fnv_map_remove(&mut self.grids, grid) {
                    Some(g) => g,
                    None => {
                        return RepaintGridEvent::nothing();
                    },
                };
                let hl = self.hl.default_hl();
                g.clear(hl);
                fnv_map_insert(&mut self.grids, grid, g);
                proof {
                    assert(self.grids@ =~= old(self).grids@.insert(grid, self.grids@[grid]));
                    assert forall|k: u64| #[trigger] self.grids@.contains_key(k) implies self.grids@[k].model.well_formed() by {
                        if k != grid {
                            assert(old(self).grids@.contains_key(k));
                        }
                    }
                }
                RepaintGridEvent::new(grid, RepaintMode::All)
            },
            UiCall::GridDestroy(grid) => {
                let _ = fnv_map_remove(&mut self.grids, grid);
                proof {
                    assert forall|k: u64| #[trigger] self.grids@.contains_key(k) implies self.grids@[k].model.well_formed() by {
                        assert(old(self).grids@.contains_key(k));
                    }
                }
                RepaintGridEvent::all()
            },
            UiCall::GridCursorGoto { grid, row, col } => {
                let mut g = match fnv_map_remove(&mut self.grids, grid) {
                    Some(g) => g,
                    None => {
                        return RepaintGridEvent::nothing();
                    },
                };
                let changed = g.cursor_goto(row as usize, col as usize);
                fnv_map_insert(&mut self.grids, grid, g);
                proof {
                    assert(self.grids@ =~= old(self).grids@.insert(grid, self.grids@[grid]));
                    assert forall|k: u64| #[trigger] self.grids@.contains_key(k) implies self.grids@[k].model.well_formed() by {
                        if k != grid {
                            assert(old(self).grids@.contains_key(k));
                        }
                    }
                }
                RepaintGridEvent::new(grid, RepaintMode::AreaList(changed))
            },
            UiCall::GridScroll { grid, top, bot, left, right, rows, cols } => {
                let mut g = match fnv_map_remove(&mut self.grids, grid) {
                    Some(g) => g,
                    None => {
                        return RepaintGridEvent::nothing();
                    },
                };
                let hl = self.hl.default_hl();
                let rect = g.scroll(top, bot, left, right, rows, cols, hl);
                fnv_map_insert(&mut self.grids, grid, g);
                proof {
                    assert(self.grids@ =~= old(self).grids@.insert(grid, self.grids@[grid]));
                    assert forall|k: u64| #[trigger] self.grids@.contains_key(k) implies self.grids@[k].model.well_formed() by {
                        if k != grid {
                            assert(old(self).grids@.contains_key(k));
                        }
                    }
                }
                RepaintGridEvent::new(grid, RepaintMode::Area(rect))
            },
            UiCall::GridResize { grid, columns, rows } => {
                let mut g = match fnv_map_remove(&mut self.grids, grid) {
                    Some(g) => g,
                    None => Grid::new(grid),
                };
                g.resize(columns, rows);
                fnv_map_insert(&mut self.grids, grid, g);
                proof {
                    assert(self.grids@ =~= old(self).grids@.insert(grid, self.grids@[grid]));
                    assert forall|k: u64| #[trigger] self.grids@.contains_key(k) implies self.grids@[k].model.well_formed() by {
                        if k != grid {
                            assert(old(self).grids@.contains_key(k));
                        }
                    }
                }
                RepaintGridEvent::new(grid, RepaintMode::All)
            },
            UiCall::DefaultColorsSet { fg, bg, sp } => {
                let fg = Color::from_indexed_color(fg);
                let bg = Color::from_indexed_color(bg);
                let sp = Color::from_indexed_color(sp);
                self.hl.set_defaults(fg, bg, sp, fg, bg);
                RepaintGridEvent::all()
            },
            UiCall::ModeChange { mode, idx } => {
                self.mode.update(mode.as_str(), idx as usize);
                RepaintGridEvent::all()
            },
            UiCall::PopupmenuSelect(i) => {
                match &mut self.popup {
                    Some(p) => {
                        p.selected = i;
                    },
                    None => {},
                }
                RepaintGridEvent::nothing()
            },
            UiCall::ModeInfoSet { enabled, infos } => {
                match infos {
                    Some(v) => self.mode.set_info(enabled, v),
                    None => {},
                }
                RepaintGridEvent::nothing()
            },
            UiCall::CmdlineShow { content, pos, firstc, prompt, indent, level } => {
                let bytes = firstc.as_str().as_bytes();
                let _n = bytes.len();
                let maps = attrs_chunks(&content);
                let _ = self.cmdline.show_level(&maps, firstc.as_str(), prompt.as_str(), indent, pos, level);
                RepaintGridEvent::nothing()
            },
            UiCall::CmdlineHide(level) => {
                let _ = self.cmdline.hide_level(level);
                RepaintGridEvent::nothing()
            },
            UiCall::CmdlinePos { pos, level } => {
                self.cmdline.pos(pos, level);
                RepaintGridEvent::nothing()
            },
            UiCall::CmdlineBlockShow(b) => {
                let mut lines: Vec<Vec<(AttrsMap, String)>> = Vec::new();
                let mut i: usize = 0;
                while i < b.len()
                    invariant
                        i <= b@.len(),
                        forall|j: int| 0 <= j < b@.len() ==> chunk_keys_str(chunks_view(#[trigger] b@[j]@)),
                        lines@.len() == i,
                        forall|j: int| 0 <= j < i ==> (#[trigger] lines@[j])@.map_values(|x: (AttrsMap, String)| chunk_cells(x))
                            == typed_chunks(chunks_view(b@[j]@)),
                    decreases b@.len() - i,
                {
                    let line = attrs_chunks(&b[i]);
                    let ghost before = lines@;
                    lines.push(line);
                    proof {
                        assert forall|j: int| 0 <= j < i + 1 implies (#[trigger] lines@[j])@.map_values(
                            |x: (AttrsMap, String)| chunk_cells(x),
                        ) == typed_chunks(chunks_view(b@[j]@)) by {
                            if j < i {
                                assert(lines@[j] == before[j]);
                            }
                        }
                    }
                    i = i + 1;
                }
                self.cmdline.show_block(&lines);
                RepaintGridEvent::nothing()
            },
            UiCall::CmdlineBlockAppend(content) => {
                let maps = attrs_chunks(&content);
                self.cmdline.block_append(&maps);
                RepaintGridEvent::nothing()
            },
            UiCall::CmdlineBlockHide => {
                self.cmdline.block_hide();
                RepaintGridEvent::nothing()
            },
            UiCall::Mouse(on) => {
                self.mouse_enabled = on;
                RepaintGridEvent::nothing()
            },
            UiCall::Busy(b) => {
                self.busy = b;
                RepaintGridEvent::all()
            },
            UiCall::PopupmenuShow { items, selected, row, col } => {
                self.popup = Some(PopupState { items, selected, row, col });
                RepaintGridEvent::nothing()
            },
            UiCall::PopupmenuHide => {
                self.popup = None;
                RepaintGridEvent::nothing()
            },
            UiCall::TablineUpdate { current, tabs } => {
                self.current_tab = Some(current);
                self.tabs = tabs;
                RepaintGridEvent::nothing()
            },
            UiCall::Nothing => RepaintGridEvent::nothing(),
        }
    }
}


/// Whether a decoded call's arguments are of the kinds of its operation's
/// signature (as `call` reads them).
pub fn call_is_typed(call: &RedrawCall) -> (r: bool)
    ensures
        r == call_typed(*call),
{
    match call {
        RedrawCall::Op(op, args) => {
            let sig = crate::redraw::signature(*op);
            if args.len() != sig.len() {
                return false;
            }
            let mut i: usize = 0;
            while i < args.len()
                invariant
                    *call == RedrawCall::Op(*op, *args),
                    sig@ == op_signature(*op),
                    args@.len() == sig@.len(),
                    i <= args@.len(),
                    forall|j: int| 0 <= j < i ==> arg_kind(#[trigger] args@[j]) == op_signature(*op)[j],
                decreases args@.len() - i,
            {
                let k = match &args[i] {
                    Arg::Uint(_) => ArgKind::Uint,
                    Arg::Int(_) => ArgKind::Int,
                    Arg::Bool(_) => ArgKind::Bool,
                    Arg::Str(_) => ArgKind::Str,
                    Arg::Ext(_) => ArgKind::Ext,
                };
                if k != sig[i] {
                    proof {
                        assert(arg_kind(args@[i as int]) != op_signature(*op)[i as int]);
                    }
                    return false;
                }
                i = i + 1;
            }
            true
        },
        _ => true,
    }
}


/// Every call that `call` decodes has arguments of the kinds of its
/// operation's signature, so it can be prepared.
pub proof fn law_decoded_calls_are_typed(method: Seq<char>, args: Seq<Value>, rc: RedrawCall)
    requires
        crate::redraw::call_decodes(method, args, rc),
    ensures
        call_typed(rc),
{
    if let RedrawCall::Op(op, out) = rc {
        if let Some(o) = crate::redraw::op_of(method) {
            assert forall|i: int| 0 <= i < out@.len() implies arg_kind(#[trigger] out@[i]) == op_signature(op)[i] by {
                assert(crate::redraw::arg_reads(op_signature(op)[i], args[i], out@[i]));
            }
        }
    }
}

} // verus!

//! Decoding neovim's `redraw` notifications: each call names a UI operation
//! and carries its arguments, which are checked against the operation's
//! signature before the UI sees them.
use vstd::prelude::*;

use crate::text::{push_str, str_eq, string_from};
use crate::value::{all_keys_str, attrs_lookup, lemma_attrs_get, AttrsMap, Value};

verus! {

/// The kind of an argument that a UI operation takes.
#[derive(PartialEq, Eq, Structural, Clone, Copy, Debug)]
pub enum ArgKind {
    Uint,
    Int,
    Bool,
    Str,
    /// A structured value, handed on as it came.
    Ext,
}

/// An argument, read according to its kind.
#[derive(Debug)]
pub enum Arg {
    Uint(u64),
    Int(i64),
    Bool(bool),
    Str(String),
    Ext(Value),
}

/// `v` can be read as an argument of kind `k`.
pub open spec fn arg_readable(k: ArgKind, v: Value) -> bool {
    match k {
        ArgKind::Uint => v.spec_as_u64() is Some,
        ArgKind::Int => v.spec_as_i64() is Some,
        ArgKind::Bool => v.spec_as_bool() is Some,
        ArgKind::Str => v.spec_as_str() is Some,
        ArgKind::Ext => true,
    }
}

/// `a` is `v` read as an argument of kind `k`.
pub open spec fn arg_reads(k: ArgKind, v: Value, a: Arg) -> bool {
    match k {
        ArgKind::Uint => v.spec_as_u64() is Some && a == Arg::Uint(v.spec_as_u64()->0),
        ArgKind::Int => v.spec_as_i64() is Some && a == Arg::Int(v.spec_as_i64()->0),
        ArgKind::Bool => v.spec_as_bool() is Some && a == Arg::Bool(v.spec_as_bool()->0),
        ArgKind::Str => v.spec_as_str() is Some && (a matches Arg::Str(s) && s@ == v.spec_as_str()->0),
        ArgKind::Ext => a == Arg::Ext(v),
    }
}

/// The message for a value that cannot be read as kind `k`.
pub open spec fn kind_error(k: ArgKind) -> Seq<char> {
    match k {
        ArgKind::Uint => "Can't convert argument to u64"@,
        ArgKind::Int => "Can't convert argument to int"@,
        ArgKind::Bool => "Can't convert argument to bool"@,
        _ => "Can't convert to string"@,
    }
}

/// The message for the value `v` that cannot be read as kind `k`: a string
/// whose bytes are not UTF-8 gets its own.
pub open spec fn read_error(k: ArgKind, v: Value) -> Seq<char> {
    if k is Str && v is BadStr {
        "Can't convert to utf8 string"@
    } else {
        kind_error(k)
    }
}

/// The message for a missing argument of the operation `name`.
pub open spec fn missing_error(name: Seq<char>) -> Seq<char> {
    "No such argument for "@ + name
}

/// The first failure in reading `args` by `kinds`, from position `i` on: an
/// argument that is missing or of the wrong kind. Arguments beyond the
/// signature are ignored.
pub open spec fn args_error(name: Seq<char>, args: Seq<Value>, kinds: Seq<ArgKind>, i: int) -> Option<Seq<char>>
    decreases kinds.len() - i,
{
    if i < 0 || i >= kinds.len() {
        None
    } else if i >= args.len() {
        Some(missing_error(name))
    } else if !arg_readable(kinds[i], args[i]) {
        Some(read_error(kinds[i], args[i]))
    } else {
        args_error(name, args, kinds, i + 1)
    }
}

fn kind_error_text(k: ArgKind) -> (e: String)
    ensures
        e@ == kind_error(k),
{
    match k {
        ArgKind::Uint => string_from("Can't convert argument to u64"),
        ArgKind::Int => string_from("Can't convert argument to int"),
        ArgKind::Bool => string_from("Can't convert argument to bool"),
        _ => string_from("Can't convert to string"),
    }
}

fn read_error_text(k: ArgKind, bad_str: bool) -> (e: String)
    ensures
        e@ == (if k is Str && bad_str {
            "Can't convert to utf8 string"@
        } else {
            kind_error(k)
        }),
{
    match k {
        ArgKind::Str => if bad_str {
            string_from("Can't convert to utf8 string")
        } else {
            kind_error_text(k)
        },
        _ => kind_error_text(k),
    }
}

/// Reads `v` as an argument of kind `k`.
fn read_arg(k: ArgKind, v: Value) -> (r: Option<Arg>)
    ensures
        r is Some <==> arg_readable(k, v),
        r matches Some(a) ==> arg_reads(k, v, a),
{
    match k {
        ArgKind::Uint => match v.as_u64() {
            Some(n) => Some(Arg::Uint(n)),
            None => None,
        },
        ArgKind::Int => match v.as_i64() {
            Some(n) => Some(Arg::Int(n)),
            None => None,
        },
        ArgKind::Bool => match v.as_bool() {
            Some(b) => Some(Arg::Bool(b)),
            None => None,
        },
        ArgKind::Str => match v.as_str() {
            Some(s) => Some(Arg::Str(string_from(s))),
            None => None,
        },
        ArgKind::Ext => Some(Arg::Ext(v)),
    }
}

/// Reads `args` by the signature `kinds` of the operation `name`: one
/// argument per kind, in order; fails on the first missing argument or
/// argument of the wrong kind.
pub fn decode_args(name: &str, args: Vec<Value>, kinds: &Vec<ArgKind>) -> (r: Result<Vec<Arg>, String>)
    ensures
        r is Err <==> args_error(name@, args@, kinds@, 0) is Some,
        r matches Err(e) ==> e@ == args_error(name@, args@, kinds@, 0)->0,
        r matches Ok(out) ==> out@.len() == kinds@.len() && forall|i: int|
            0 <= i < kinds@.len() ==> #[trigger] arg_reads(kinds@[i], args@[i], out@[i]),
{
    let ghost all = args@;
    let mut rest = args;
    let mut out: Vec<Arg> = Vec::new();
    let mut i: usize = 0;
    while i < kinds.len()
        invariant
            i <= kinds@.len(),
            out@.len() == i,
            i <= all.len() ==> rest@ == all.skip(i as int),
            i > all.len() ==> rest@.len() == 0,
            i <= all.len(),
            all == args@,
            args_error(name@, all, kinds@, 0) == args_error(name@, all, kinds@, i as int),
            forall|j: int| 0 <= j < i ==> #[trigger] arg_reads(kinds@[j], all[j], out@[j]),
        decreases kinds@.len() - i,
    {
        if rest.len() == 0 {
            proof {
                assert(all.skip(i as int).len() == 0);
                assert(i == all.len());
                assert(args_error(name@, all, kinds@, i as int) == Some(missing_error(name@)));
            }
            let mut e = string_from("No such argument for ");
            push_str(&mut e, name);
            return Err(e);
        }
        let v = rest.remove(0);
        proof {
            assert(v == all[i as int]);
            assert(rest@ =~= all.skip(i + 1));
        }
        let bad_str = match &v {
            Value::BadStr(_) => true,
            _ => false,
        };
        match read_arg(kinds[i], v) {
            Some(a) => {
                out.push(a);
            },
            None => {
                return Err(read_error_text(kinds[i], bad_str));
            },
        }
        i = i + 1;
    }
    Ok(out)
}


/// A UI operation that a redraw call names, with arguments read by a fixed
/// signature.
#[derive(PartialEq, Eq, Structural, Clone, Copy, Debug)]
pub enum UiOp {
    GridLine,
    GridClear,
    GridDestroy,
    GridCursorGoto,
    GridScroll,
    GridResize,
    DefaultColorsSet,
    ModeChange,
    PopupmenuSelect,
    ModeInfoSet,
    CmdlineShow,
    CmdlineBlockShow,
    CmdlineBlockAppend,
    CmdlineHide,
    CmdlinePos,
    CmdlineSpecialChar,
    WildmenuShow,
    WildmenuSelect,
}

/// The operation that the redraw call `method` names, if it takes arguments
/// by a fixed signature.
pub open spec fn op_of(method: Seq<char>) -> Option<UiOp> {
    if method == "grid_line"@ { Some(UiOp::GridLine) }
    else if method == "grid_clear"@ { Some(UiOp::GridClear) }
    else if method == "grid_destroy"@ { Some(UiOp::GridDestroy) }
    else if method == "grid_cursor_goto"@ { Some(UiOp::GridCursorGoto) }
    else if method == "grid_scroll"@ { Some(UiOp::GridScroll) }
    else if method == "grid_resize"@ { Some(UiOp::GridResize) }
    else if method == "default_colors_set"@ { Some(UiOp::DefaultColorsSet) }
    else if method == "mode_change"@ { Some(UiOp::ModeChange) }
    else if method == "popupmenu_select"@ { Some(UiOp::PopupmenuSelect) }
    else if method == "mode_info_set"@ { Some(UiOp::ModeInfoSet) }
    else if method == "cmdline_show"@ { Some(UiOp::CmdlineShow) }
    else if method == "cmdline_block_show"@ { Some(UiOp::CmdlineBlockShow) }
    else if method == "cmdline_block_append"@ { Some(UiOp::CmdlineBlockAppend) }
    else if method == "cmdline_hide"@ { Some(UiOp::CmdlineHide) }
    else if method == "cmdline_pos"@ { Some(UiOp::CmdlinePos) }
    else if method == "cmdline_special_char"@ { Some(UiOp::CmdlineSpecialChar) }
    else if method == "wildmenu_show"@ { Some(UiOp::WildmenuShow) }
    else if method == "wildmenu_select"@ { Some(UiOp::WildmenuSelect) }
    else { None }
}

/// The UI method an operation goes to, as missing-argument errors name it.
pub open spec fn op_name(op: UiOp) -> Seq<char> {
    match op {
        UiOp::GridLine => "grid_line"@,
        UiOp::GridClear => "grid_clear"@,
        UiOp::GridDestroy => "grid_destroy"@,
        UiOp::GridCursorGoto => "grid_cursor_goto"@,
        UiOp::GridScroll => "grid_scroll"@,
        UiOp::GridResize => "grid_resize"@,
        UiOp::DefaultColorsSet => "default_colors_set"@,
        UiOp::ModeChange => "on_mode_change"@,
        UiOp::PopupmenuSelect => "popupmenu_select"@,
        UiOp::ModeInfoSet => "mode_info_set"@,
        UiOp::CmdlineShow => "cmdline_show"@,
        UiOp::CmdlineBlockShow => "cmdline_block_show"@,
        UiOp::CmdlineBlockAppend => "cmdline_block_append"@,
        UiOp::CmdlineHide => "cmdline_hide"@,
        UiOp::CmdlinePos => "cmdline_pos"@,
        UiOp::CmdlineSpecialChar => "cmdline_special_char"@,
        UiOp::WildmenuShow => "wildmenu_show"@,
        UiOp::WildmenuSelect => "wildmenu_select"@,
    }
}

/// The kinds of an operation's arguments, in order.
pub open spec fn op_signature(op: UiOp) -> Seq<ArgKind> {
    match op {
        UiOp::GridLine => seq![ArgKind::Uint, ArgKind::Uint, ArgKind::Uint, ArgKind::Ext],
        UiOp::GridClear => seq![ArgKind::Uint],
        UiOp::GridDestroy => seq![ArgKind::Uint],
        UiOp::GridCursorGoto => seq![ArgKind::Uint, ArgKind::Uint, ArgKind::Uint],
        UiOp::GridScroll => seq![
            ArgKind::Uint,
            ArgKind::Uint,
            ArgKind::Uint,
            ArgKind::Uint,
            ArgKind::Uint,
            ArgKind::Int,
            ArgKind::Int,
        ],
        UiOp::GridResize => seq![ArgKind::Uint, ArgKind::Uint, ArgKind::Uint],
        UiOp::DefaultColorsSet => seq![ArgKind::Uint, ArgKind::Uint, ArgKind::Uint],
        UiOp::ModeChange => seq![ArgKind::Str, ArgKind::Uint],
        UiOp::PopupmenuSelect => seq![ArgKind::Int],
        UiOp::ModeInfoSet => seq![ArgKind::Bool, ArgKind::Ext],
        UiOp::CmdlineShow => seq![
            ArgKind::Ext,
            ArgKind::Uint,
            ArgKind::Str,
            ArgKind::Str,
            ArgKind::Uint,
            ArgKind::Uint,
        ],
        UiOp::CmdlineBlockShow => seq![ArgKind::Ext],
        UiOp::CmdlineBlockAppend => seq![ArgKind::Ext],
        UiOp::CmdlineHide => seq![ArgKind::Uint],
        UiOp::CmdlinePos => seq![ArgKind::Uint, ArgKind::Uint],
        UiOp::CmdlineSpecialChar => seq![ArgKind::Str, ArgKind::Bool, ArgKind::Uint],
        UiOp::WildmenuShow => seq![ArgKind::Ext],
        UiOp::WildmenuSelect => seq![ArgKind::Int],
    }
}

/// The operation that the redraw call `method` names, if it takes arguments
/// by a fixed signature.
pub fn ui_op(method: &str) -> (r: Option<UiOp>)
    ensures
        r == op_of(method@),
{
    if str_eq(method, "grid_line") { Some(UiOp::GridLine) }
    else if str_eq(method, "grid_clear") { Some(UiOp::GridClear) }
    else if str_eq(method, "grid_destroy") { Some(UiOp::GridDestroy) }
    else if str_eq(method, "grid_cursor_goto") { Some(UiOp::GridCursorGoto) }
    else if str_eq(method, "grid_scroll") { Some(UiOp::GridScroll) }
    else if str_eq(method, "grid_resize") { Some(UiOp::GridResize) }
    else if str_eq(method, "default_colors_set") { Some(UiOp::DefaultColorsSet) }
    else if str_eq(method, "mode_change") { Some(UiOp::ModeChange) }
    else if str_eq(method, "popupmenu_select") { Some(UiOp::PopupmenuSelect) }
    else if str_eq(method, "mode_info_set") { Some(UiOp::ModeInfoSet) }
    else if str_eq(method, "cmdline_show") { Some(UiOp::CmdlineShow) }
    else if str_eq(method, "cmdline_block_show") { Some(UiOp::CmdlineBlockShow) }
    else if str_eq(method, "cmdline_block_append") { Some(UiOp::CmdlineBlockAppend) }
    else if str_eq(method, "cmdline_hide") { Some(UiOp::CmdlineHide) }
    else if str_eq(method, "cmdline_pos") { Some(UiOp::CmdlinePos) }
    else if str_eq(method, "cmdline_special_char") { Some(UiOp::CmdlineSpecialChar) }
    else if str_eq(method, "wildmenu_show") { Some(UiOp::WildmenuShow) }
    else if str_eq(method, "wildmenu_select") { Some(UiOp::WildmenuSelect) }
    else { None }
}

/// The UI method an operation goes to.
pub fn ui_op_name(op: UiOp) -> (n: &'static str)
    ensures
        n@ == op_name(op),
{
    match op {
        UiOp::GridLine => "grid_line",
        UiOp::GridClear => "grid_clear",
        UiOp::GridDestroy => "grid_destroy",
        UiOp::GridCursorGoto => "grid_cursor_goto",
        UiOp::GridScroll => "grid_scroll",
        UiOp::GridResize => "grid_resize",
        UiOp::DefaultColorsSet => "default_colors_set",
        UiOp::ModeChange => "on_mode_change",
        UiOp::PopupmenuSelect => "popupmenu_select",
        UiOp::ModeInfoSet => "mode_info_set",
        UiOp::CmdlineShow => "cmdline_show",
        UiOp::CmdlineBlockShow => "cmdline_block_show",
        UiOp::CmdlineBlockAppend => "cmdline_block_append",
        UiOp::CmdlineHide => "cmdline_hide",
        UiOp::CmdlinePos => "cmdline_pos",
        UiOp::CmdlineSpecialChar => "cmdline_special_char",
        UiOp::WildmenuShow => "wildmenu_show",
        UiOp::WildmenuSelect => "wildmenu_select",
    }
}

/// The kinds of an operation's arguments, in order.
pub fn signature(op: UiOp) -> (v: Vec<ArgKind>)
    ensures
        v@ == op_signature(op),
{
    let mut v: Vec<ArgKind> = Vec::new();
    match op {
        UiOp::GridLine => {
            v.push(ArgKind::Uint);
            v.push(ArgKind::Uint);
            v.push(ArgKind::Uint);
            v.push(ArgKind::Ext);
        },
        UiOp::GridClear | UiOp::GridDestroy | UiOp::CmdlineHide => {
            v.push(ArgKind::Uint);
        },
        UiOp::GridCursorGoto | UiOp::GridResize | UiOp::DefaultColorsSet => {
            v.push(ArgKind::Uint);
            v.push(ArgKind::Uint);
            v.push(ArgKind::Uint);
        },
        UiOp::GridScroll => {
            v.push(ArgKind::Uint);
            v.push(ArgKind::Uint);
            v.push(ArgKind::Uint);
            v.push(ArgKind::Uint);
            v.push(ArgKind::Uint);
            v.push(ArgKind::Int);
            v.push(ArgKind::Int);
        },
        UiOp::ModeChange => {
            v.push(ArgKind::Str);
            v.push(ArgKind::Uint);
        },
        UiOp::PopupmenuSelect | UiOp::WildmenuSelect => {
            v.push(ArgKind::Int);
        },
        UiOp::ModeInfoSet => {
            v.push(ArgKind::Bool);
            v.push(ArgKind::Ext);
        },
        UiOp::CmdlineShow => {
            v.push(ArgKind::Ext);
            v.push(ArgKind::Uint);
            v.push(ArgKind::Str);
            v.push(ArgKind::Str);
            v.push(ArgKind::Uint);
            v.push(ArgKind::Uint);
        },
        UiOp::CmdlineBlockShow | UiOp::CmdlineBlockAppend | UiOp::WildmenuShow => {
            v.push(ArgKind::Ext);
        },
        UiOp::CmdlinePos => {
            v.push(ArgKind::Uint);
            v.push(ArgKind::Uint);
        },
        UiOp::CmdlineSpecialChar => {
            v.push(ArgKind::Str);
            v.push(ArgKind::Bool);
            v.push(ArgKind::Uint);
        },
    }
    proof {
        assert(v@ =~= op_signature(op));
    }
    v
}


/// The characters of each string.
pub open spec fn strings_view(v: Seq<String>) -> Seq<Seq<char>> {
    v.map_values(|s: String| s@)
}

/// The characters of each string of each row.
pub open spec fn rows_view(v: Seq<Vec<String>>) -> Seq<Seq<Seq<char>>> {
    v.map_values(|r: Vec<String>| strings_view(r@))
}

/// The columns of a popup menu row: each must be a string.
pub open spec fn menu_columns(cols: Seq<Value>) -> Result<Seq<Seq<char>>, Seq<char>>
    decreases cols.len(),
{
    if cols.len() == 0 {
        Ok(Seq::empty())
    } else {
        match menu_columns(cols.drop_last()) {
            Err(e) => Err(e),
            Ok(p) => match cols.last().spec_as_str() {
                Some(c) => Ok(p.push(c)),
                None => Err("Error get menu column"@),
            },
        }
    }
}

/// A popup menu row: an array of string columns.
pub open spec fn menu_row(v: Value) -> Result<Seq<Seq<char>>, Seq<char>> {
    match v {
        Value::Array(a) => menu_columns(a@),
        _ => Err("Error get menu item array"@),
    }
}

/// The popup menu rows, read in order; the first bad row gives the error.
pub open spec fn menu_rows(items: Seq<Value>) -> Result<Seq<Seq<Seq<char>>>, Seq<char>>
    decreases items.len(),
{
    if items.len() == 0 {
        Ok(Seq::empty())
    } else {
        match menu_rows(items.drop_last()) {
            Err(e) => Err(e),
            Ok(p) => match menu_row(items.last()) {
                Ok(r) => Ok(p.push(r)),
                Err(e) => Err(e),
            },
        }
    }
}

/// The popup menu: an array of rows.
pub open spec fn menu_of(v: Value) -> Result<Seq<Seq<Seq<char>>>, Seq<char>> {
    match v {
        Value::Array(a) => menu_rows(a@),
        _ => Err("Error get menu list array"@),
    }
}

fn read_columns(cols: &Vec<Value>) -> (r: Result<Vec<String>, String>)
    ensures
        r is Ok <==> menu_columns(cols@) is Ok,
        r matches Ok(c) ==> strings_view(c@) == menu_columns(cols@)->Ok_0,
        r matches Err(e) ==> e@ == menu_columns(cols@)->Err_0,
{
    let mut out: Vec<String> = Vec::new();
    let mut i: usize = 0;
    proof {
        assert(cols@.take(0) =~= Seq::<Value>::empty());
        assert(strings_view(out@) =~= Seq::<Seq<char>>::empty());
    }
    while i < cols.len()
        invariant
            i <= cols@.len(),
            menu_columns(cols@.take(i as int)) == Ok::<Seq<Seq<char>>, Seq<char>>(strings_view(out@)),
        decreases cols@.len() - i,
    {
        proof {
            assert(cols@.take(i + 1).drop_last() =~= cols@.take(i as int));
            assert(cols@.take(i + 1).last() == cols@[i as int]);
        }
        match cols[i].as_str() {
            Some(c) => {
                let ghost before = out@;
                out.push(string_from(c));
                proof {
                    assert(strings_view(out@) =~= strings_view(before).push(c@));
                }
            },
            None => {
                proof {
                    lemma_menu_columns_prefix_err(cols@, i as int + 1);
                }
                return Err(string_from("Error get menu column"));
            },
        }
        i = i + 1;
    }
    proof {
        assert(cols@.take(i as int) =~= cols@);
    }
    Ok(out)
}

/// An error in reading a prefix of the columns is the error of reading them all.
proof fn lemma_menu_columns_prefix_err(cols: Seq<Value>, n: int)
    requires
        0 <= n <= cols.len(),
        menu_columns(cols.take(n)) is Err,
    ensures
        menu_columns(cols) == menu_columns(cols.take(n)),
    decreases cols.len() - n,
{
    if n < cols.len() {
        assert(cols.take(n + 1).drop_last() =~= cols.take(n));
        lemma_menu_columns_prefix_err(cols, n + 1);
    } else {
        assert(cols.take(n) =~= cols);
    }
}

/// An error in reading a prefix of the rows is the error of reading them all.
proof fn lemma_menu_rows_prefix_err(items: Seq<Value>, n: int)
    requires
        0 <= n <= items.len(),
        menu_rows(items.take(n)) is Err,
    ensures
        menu_rows(items) == menu_rows(items.take(n)),
    decreases items.len() - n,
{
    if n < items.len() {
        assert(items.take(n + 1).drop_last() =~= items.take(n));
        lemma_menu_rows_prefix_err(items, n + 1);
    } else {
        assert(items.take(n) =~= items);
    }
}

/// Reads the popup menu: an array of rows, each an array of string columns.
pub fn read_menu(v: &Value) -> (r: Result<Vec<Vec<String>>, String>)
    ensures
        r is Ok <==> menu_of(*v) is Ok,
        r matches Ok(m) ==> rows_view(m@) == menu_of(*v)->Ok_0,
        r matches Err(e) ==> e@ == menu_of(*v)->Err_0,
{
    let items = match v.as_array() {
        Some(a) => a,
        None => return Err(string_from("Error get menu list array")),
    };
    let mut out: Vec<Vec<String>> = Vec::new();
    let mut i: usize = 0;
    proof {
        assert(items@.take(0) =~= Seq::<Value>::empty());
        assert(rows_view(out@) =~= Seq::<Seq<Seq<char>>>::empty());
    }
    while i < items.len()
        invariant
            i <= items@.len(),
            *v == Value::Array(*items),
            menu_rows(items@.take(i as int)) == Ok::<Seq<Seq<Seq<char>>>, Seq<char>>(rows_view(out@)),
        decreases items@.len() - i,
    {
        proof {
            assert(items@.take(i + 1).drop_last() =~= items@.take(i as int));
            assert(items@.take(i + 1).last() == items@[i as int]);
        }
        let row = match items[i].as_array() {
            Some(cols) => read_columns(cols),
            None => Err(string_from("Error get menu item array")),
        };
        match row {
            Ok(r) => {
                let ghost before = out@;
                out.push(r);
                proof {
                    assert(rows_view(out@) =~= rows_view(before).push(strings_view(r@)));
                }
            },
            Err(e) => {
                proof {
                    lemma_menu_rows_prefix_err(items@, i as int + 1);
                }
                return Err(e);
            },
        }
        i = i + 1;
    }
    proof {
        assert(items@.take(i as int) =~= items@);
    }
    Ok(out)
}


/// The id and the name of a tab, read from the tab's map; the name is there
/// only where it is a string.
pub open spec fn tab_entry(v: Value) -> Result<(Value, Option<Seq<char>>), Seq<char>> {
    match v {
        Value::Table(p) => if all_keys_str(p@) {
            Ok(
                (
                    match attrs_lookup(p@, "tab"@) {
                        Some(t) => t,
                        None => Value::Nil,
                    },
                    match attrs_lookup(p@, "name"@) {
                        Some(n) => n.spec_as_str(),
                        None => None,
                    },
                ),
            )
        } else {
            Err("Can't convert map key to string"@)
        },
        _ => Err("Error get map for tab"@),
    }
}

/// A tab's map binds `tab`.
pub open spec fn tab_has_id(v: Value) -> bool {
    match v {
        Value::Table(p) => attrs_lookup(p@, "tab"@) is Some,
        _ => false,
    }
}

/// The tabs, read in order; the first bad tab gives the error.
pub open spec fn tab_entries(items: Seq<Value>) -> Result<Seq<(Value, Option<Seq<char>>)>, Seq<char>>
    decreases items.len(),
{
    if items.len() == 0 {
        Ok(Seq::empty())
    } else {
        match tab_entries(items.drop_last()) {
            Err(e) => Err(e),
            Ok(p) => match tab_entry(items.last()) {
                Ok(t) => Ok(p.push(t)),
                Err(e) => Err(e),
            },
        }
    }
}

/// Every tab that is reached with no error before it binds `tab`.
pub open spec fn tabs_total(items: Seq<Value>) -> bool {
    forall|i: int|
        0 <= i < items.len() && tab_entries(items.take(i)) is Ok && #[trigger] tab_entry(items[i]) is Ok
            ==> tab_has_id(items[i])
}

/// The tab list: an array of tab maps.
pub open spec fn tabline_of(v: Value) -> Result<Seq<(Value, Option<Seq<char>>)>, Seq<char>> {
    match v {
        Value::Array(a) => tab_entries(a@),
        _ => Err("Error get tabline list"@),
    }
}

/// The tabs as plain values.
pub open spec fn tabs_view(t: Seq<(Value, Option<String>)>) -> Seq<(Value, Option<Seq<char>>)> {
    t.map_values(
        |e: (Value, Option<String>)|
            (
                e.0,
                match e.1 {
                    Some(s) => Some(s@),
                    None => None,
                },
            ),
    )
}

fn keys_are_str(pairs: &Vec<(Value, Value)>) -> (r: bool)
    ensures
        r == all_keys_str(pairs@),
{
    let mut i: usize = 0;
    while i < pairs.len()
        invariant
            i <= pairs@.len(),
            forall|j: int| 0 <= j < i ==> (#[trigger] pairs@[j]).0.spec_as_str() is Some,
        decreases pairs@.len() - i,
    {
        if pairs[i].0.as_str().is_none() {
            return false;
        }
        i = i + 1;
    }
    true
}

/// The index of the last pair whose key is the string `key`.
fn last_key_index(pairs: &Vec<(Value, Value)>, key: &str) -> (r: Option<usize>)
    ensures
        r is Some <==> attrs_lookup(pairs@, key@) is Some,
        r matches Some(i) ==> i < pairs@.len() && pairs@[i as int].1 == attrs_lookup(pairs@, key@)->0,
{
    let mut i = pairs.len();
    proof {
        assert(pairs@.take(i as int) =~= pairs@);
    }
    while i > 0
        invariant
            i <= pairs@.len(),
            attrs_lookup(pairs@, key@) == attrs_lookup(pairs@.take(i as int), key@),
        decreases i,
    {
        proof {
            let t = pairs@.take(i as int);
            assert(t.drop_last() =~= pairs@.take(i - 1));
            assert(t.last() == pairs@[i - 1]);
        }
        let k = pairs[i - 1].0.as_str();
        match k {
            Some(k) => {
                if str_eq(k, key) {
                    return Some(i - 1);
                }
            },
            None => {},
        }
        i = i - 1;
    }
    proof {
        assert(pairs@.take(0) =~= Seq::<(Value, Value)>::empty());
    }
    None
}

/// Reads one tab's map into its id and its name.
fn read_tab(v: Value) -> (r: Result<(Value, Option<String>), String>)
    requires
        tab_entry(v) is Ok ==> tab_has_id(v),
    ensures
        r is Ok <==> tab_entry(v) is Ok,
        r matches Ok(t) ==> tabs_view(seq![t]) == seq![tab_entry(v)->Ok_0],
        r matches Err(e) ==> e@ == tab_entry(v)->Err_0,
{
    match v {
        Value::Table(pairs) => {
            if !keys_are_str(&pairs) {
                return Err(string_from("Can't convert map key to string"));
            }
            let ghost all = pairs@;
            let name = match last_key_index(&pairs, "name") {
                Some(j) => match pairs[j].1.as_str() {
                    Some(n) => Some(string_from(n)),
                    None => None,
                },
                None => None,
            };
            let mut pairs = pairs;
            match last_key_index(&pairs, "tab") {
                Some(t) => {
                    let (_, id) = pairs.remove(t);
                    let r = (id, name);
                    proof {
                        assert(tabs_view(seq![r]) =~= seq![tab_entry(v)->Ok_0]);
                    }
                    Ok(r)
                },
                None => {
                    let r = (Value::Nil, name);
                    proof {
                        assert(tabs_view(seq![r]) =~= seq![tab_entry(v)->Ok_0]);
                    }
                    Ok(r)
                },
            }
        },
        _ => Err(string_from("Error get map for tab")),
    }
}

/// An error in reading a prefix of the tabs is the error of reading them all.
proof fn lemma_tab_entries_prefix_err(items: Seq<Value>, n: int)
    requires
        0 <= n <= items.len(),
        tab_entries(items.take(n)) is Err,
    ensures
        tab_entries(items) == tab_entries(items.take(n)),
    decreases items.len() - n,
{
    if n < items.len() {
        assert(items.take(n + 1).drop_last() =~= items.take(n));
        lemma_tab_entries_prefix_err(items, n + 1);
    } else {
        assert(items.take(n) =~= items);
    }
}

/// Reads the tab list: an array of tab maps, each with the tab's id and,
/// optionally, its name.
pub fn read_tabline(v: Value) -> (r: Result<Vec<(Value, Option<String>)>, String>)
    requires
        v is Array ==> tabs_total(v->Array_0@),
    ensures
        r is Ok <==> tabline_of(v) is Ok,
        r matches Ok(t) ==> tabs_view(t@) == tabline_of(v)->Ok_0,
        r matches Err(e) ==> e@ == tabline_of(v)->Err_0,
{
    match v {
        Value::Array(items) => {
            let ghost all = items@;
            assert(all.len() <= usize::MAX) by {
                assert(items.len() == all.len());
            }
            let mut rest = items;
            let mut out: Vec<(Value, Option<String>)> = Vec::new();
            let mut i: usize = 0;
            proof {
                assert(all.take(0) =~= Seq::<Value>::empty());
                assert(tabs_view(out@) =~= Seq::<(Value, Option<Seq<char>>)>::empty());
                assert(rest@ =~= all.skip(0));
            }
            while rest.len() > 0
                invariant
                    i <= all.len(),
                    all.len() <= usize::MAX,
                    rest@ == all.skip(i as int),
                    tabline_of(v) == tab_entries(all),
                    tabs_total(all),
                    tab_entries(all.take(i as int)) == Ok::<Seq<(Value, Option<Seq<char>>)>, Seq<char>>(tabs_view(out@)),
                decreases rest@.len(),
            {
                let it = rest.remove(0);
                proof {
                    assert(it == all[i as int]);
                    assert(rest@ =~= all.skip(i + 1));
                    assert(all.take(i + 1).drop_last() =~= all.take(i as int));
                    assert(all.take(i + 1).last() == all[i as int]);
                    if tab_entry(it) is Ok {
                        assert(tab_has_id(all[i as int]));
                    }
                }
                match read_tab(it) {
                    Ok(t) => {
                        let ghost before = out@;
                        out.push(t);
                        proof {
                            assert(tabs_view(out@) =~= tabs_view(before) + tabs_view(seq![t]));
                            assert(tabs_view(out@) =~= tabs_view(before).push(tab_entry(all[i as int])->Ok_0));
                        }
                    },
                    Err(e) => {
                        proof {
                            lemma_tab_entries_prefix_err(all, i as int + 1);
                        }
                        return Err(e);
                    },
                }
                i = i + 1;
            }
            proof {
                assert(all.take(i as int) =~= all);
            }
            Ok(out)
        },
        _ => Err(string_from("Error get tabline list")),
    }
}


/// A decoded redraw call.
#[derive(Debug)]
pub enum RedrawCall {
    /// An operation with its arguments, read by the operation's signature.
    Op(UiOp, Vec<Arg>),
    /// `mouse_on` (true) or `mouse_off` (false).
    Mouse(bool),
    /// `busy_start` (true) or `busy_stop` (false).
    Busy(bool),
    /// The completion menu to show: its rows of columns, the selected row, and
    /// where it goes.
    PopupmenuShow { items: Vec<Vec<String>>, selected: i64, row: u64, col: u64 },
    PopupmenuHide,
    /// The current tab and, for each tab, its id and its name.
    TablineUpdate { current: Value, tabs: Vec<(Value, Option<String>)> },
    CmdlineBlockHide,
    WildmenuHide,
    /// A call this front end does not handle; it repaints nothing.
    Unknown,
}

/// `popupmenu_show` reads its arguments without running off their end.
pub open spec fn popup_total(args: Seq<Value>) -> bool {
    &&& args.len() >= 1
    &&& menu_of(args[0]) is Ok ==> args.len() >= 2 && (args[1].spec_as_i64() is Some ==> args.len() >= 3 && (
        args[2].spec_as_u64() is Some ==> args.len() >= 4))
}

/// `tabline_update` reads its arguments without running off their end, and
/// every tab it reads has an id.
pub open spec fn tabline_total(args: Seq<Value>) -> bool {
    &&& args.len() >= 2
    &&& args[1] is Array ==> tabs_total(args[1]->Array_0@)
}

/// The redraw call `method` can be decoded from `args` without failing
/// outright: neovim always sends such calls.
pub open spec fn call_total(method: Seq<char>, args: Seq<Value>) -> bool {
    &&& method == "popupmenu_show"@ ==> popup_total(args)
    &&& method == "tabline_update"@ ==> tabline_total(args)
}

/// The error of decoding `popupmenu_show` from `args`, if any.
pub open spec fn popup_error(args: Seq<Value>) -> Option<Seq<char>> {
    match menu_of(args[0]) {
        Err(e) => Some(e),
        Ok(_) => if args[1].spec_as_i64() is None {
            Some(kind_error(ArgKind::Int))
        } else if args[2].spec_as_u64() is None {
            Some(kind_error(ArgKind::Uint))
        } else if args[3].spec_as_u64() is None {
            Some(kind_error(ArgKind::Uint))
        } else {
            None
        },
    }
}

/// The error of decoding the redraw call `method` from `args`, if any.
pub open spec fn call_error(method: Seq<char>, args: Seq<Value>) -> Option<Seq<char>> {
    match op_of(method) {
        Some(op) => args_error(op_name(op), args, op_signature(op), 0),
        None => if method == "popupmenu_show"@ {
            popup_error(args)
        } else if method == "tabline_update"@ {
            match tabline_of(args[1]) {
                Err(e) => Some(e),
                Ok(_) => None,
            }
        } else {
            None
        },
    }
}

/// `rc` is the redraw call `method` decoded from `args` (where that succeeds).
pub open spec fn call_decodes(method: Seq<char>, args: Seq<Value>, rc: RedrawCall) -> bool {
    match op_of(method) {
        Some(op) => match rc {
            RedrawCall::Op(o, out) => o == op && out@.len() == op_signature(op).len() && forall|i: int|
                0 <= i < op_signature(op).len() ==> #[trigger] arg_reads(op_signature(op)[i], args[i], out@[i]),
            _ => false,
        },
        None => if method == "popupmenu_show"@ {
            match rc {
                RedrawCall::PopupmenuShow { items, selected, row, col } => rows_view(items@) == menu_of(args[0])->Ok_0
                    && selected == args[1].spec_as_i64()->0 && row == args[2].spec_as_u64()->0 && col
                    == args[3].spec_as_u64()->0,
                _ => false,
            }
        } else if method == "tabline_update"@ {
            match rc {
                RedrawCall::TablineUpdate { current, tabs } => current == args[0] && tabs_view(tabs@)
                    == tabline_of(args[1])->Ok_0,
                _ => false,
            }
        } else if method == "mouse_on"@ {
            rc == RedrawCall::Mouse(true)
        } else if method == "mouse_off"@ {
            rc == RedrawCall::Mouse(false)
        } else if method == "busy_start"@ {
            rc == RedrawCall::Busy(true)
        } else if method == "busy_stop"@ {
            rc == RedrawCall::Busy(false)
        } else if method == "popupmenu_hide"@ {
            rc == RedrawCall::PopupmenuHide
        } else if method == "cmdline_block_hide"@ {
            rc == RedrawCall::CmdlineBlockHide
        } else if method == "wildmenu_hide"@ {
            rc == RedrawCall::WildmenuHide
        } else {
            rc is Unknown
        },
    }
}

/// Decodes the redraw call `method` with its arguments `args`: the operation
/// it names and its arguments checked against the operation's signature; a
/// call this front end does not handle decodes to `Unknown`.
pub fn call(method: &str, args: Vec<Value>) -> (r: Result<RedrawCall, String>)
    requires
        call_total(method@, args@),
    ensures
        r is Err <==> call_error(method@, args@) is Some,
        r matches Err(e) ==> e@ == call_error(method@, args@)->0,
        r matches Ok(rc) ==> call_decodes(method@, args@, rc),
{
    match ui_op(method) {
        Some(op) => {
            let kinds = signature(op);
            match decode_args(ui_op_name(op), args, &kinds) {
                Ok(out) => {
                    assert(call_error(method@, args@) is None);
                    Ok(RedrawCall::Op(op, out))
                },
                Err(e) => Err(e),
            }
        },
        None => {
            if str_eq(method, "popupmenu_show") {
                let items = match read_menu(&args[0]) {
                    Ok(m) => m,
                    Err(e) => return Err(e),
                };
                let selected = match args[1].as_i64() {
                    Some(n) => n,
                    None => return Err(string_from("Can't convert argument to int")),
                };
                let row = match args[2].as_u64() {
                    Some(n) => n,
                    None => return Err(string_from("Can't convert argument to u64")),
                };
                let col = match args[3].as_u64() {
                    Some(n) => n,
                    None => return Err(string_from("Can't convert argument to u64")),
                };
                Ok(RedrawCall::PopupmenuShow { items, selected, row, col })
            } else if str_eq(method, "tabline_update") {
                let ghost all = args@;
                let mut args = args;
                let tabs_value = args.remove(1);
                let tabs = match read_tabline(tabs_value) {
                    Ok(t) => t,
                    Err(e) => return Err(e),
                };
                let current = args.remove(0);
                proof {
                    assert(current == all[0]);
                }
                Ok(RedrawCall::TablineUpdate { current, tabs })
            } else {
                assert(call_error(method@, args@) is None);
                let rc = if str_eq(method, "mouse_on") {
                    RedrawCall::Mouse(true)
                } else if str_eq(method, "mouse_off") {
                    RedrawCall::Mouse(false)
                } else if str_eq(method, "busy_start") {
                    RedrawCall::Busy(true)
                } else if str_eq(method, "busy_stop") {
                    RedrawCall::Busy(false)
                } else if str_eq(method, "popupmenu_hide") {
                    RedrawCall::PopupmenuHide
                } else if str_eq(method, "cmdline_block_hide") {
                    RedrawCall::CmdlineBlockHide
                } else if str_eq(method, "wildmenu_hide") {
                    RedrawCall::WildmenuHide
                } else {
                    RedrawCall::Unknown
                };
                Ok(rc)
            }
        },
    }
}

/// An entry of the completion menu.
pub struct CompleteItem<'a> {
    pub word: &'a str,
    pub kind: &'a str,
    pub menu: &'a str,
    pub info: &'a str,
}

impl<'a> CompleteItem<'a> {
    /// One entry per menu row, from its first four columns.
    pub fn map(menu: &'a [Vec<String>]) -> (items: Vec<CompleteItem<'a>>)
        requires
            forall|i: int| 0 <= i < menu@.len() ==> (#[trigger] menu@[i])@.len() >= 4,
        ensures
            items@.len() == menu@.len(),
            forall|i: int|
                0 <= i < menu@.len() ==> {
                    &&& (#[trigger] items@[i]).word@ == menu@[i]@[0]@
                    &&& items@[i].kind@ == menu@[i]@[1]@
                    &&& items@[i].menu@ == menu@[i]@[2]@
                    &&& items@[i].info@ == menu@[i]@[3]@
                },
    {
        let mut items: Vec<CompleteItem<'a>> = Vec::new();
        let mut i: usize = 0;
        while i < menu.len()
            invariant
                i <= menu@.len(),
                items@.len() == i,
                forall|j: int| 0 <= j < menu@.len() ==> (#[trigger] menu@[j])@.len() >= 4,
                forall|j: int|
                    0 <= j < i ==> {
                        &&& (#[trigger] items@[j]).word@ == menu@[j]@[0]@
                        &&& items@[j].kind@ == menu@[j]@[1]@
                        &&& items@[j].menu@ == menu@[j]@[2]@
                        &&& items@[j].info@ == menu@[j]@[3]@
                    },
            decreases menu@.len() - i,
        {
            let row = &menu[i];
            items.push(
                CompleteItem {
                    word: row[0].as_str(),
                    kind: row[1].as_str(),
                    menu: row[2].as_str(),
                    info: row[3].as_str(),
                },
            );
            i = i + 1;
        }
        items
    }
}


/// The name of an event of a redraw batch: the string that starts its array.
pub open spec fn event_name(v: Value) -> Option<Seq<char>> {
    match v {
        Value::Array(a) => if a@.len() > 0 {
            a@[0].spec_as_str()
        } else {
            None
        },
        _ => None,
    }
}

/// The event hides the completion menu.
pub open spec fn is_hide(v: Value) -> bool {
    event_name(v) == Some("popupmenu_hide"@)
}

/// The event shows the completion menu.
pub open spec fn is_show(v: Value) -> bool {
    event_name(v) == Some("popupmenu_show"@)
}

/// Every event of the batch that is an array has a first element.
pub open spec fn events_named(s: Seq<Value>) -> bool {
    forall|i: int| 0 <= i < s.len() && #[trigger] s[i] is Array ==> s[i]->Array_0@.len() > 0
}

/// Whether every event of the batch that is an array has a first element
/// (what `remove_or_delay_uneeded_events` asks of its caller).
pub fn events_are_named(params: &Vec<Value>) -> (r: bool)
    ensures
        r == events_named(params@),
{
    let mut i: usize = 0;
    while i < params.len()
        invariant
            i <= params@.len(),
            forall|j: int| 0 <= j < i && #[trigger] params@[j] is Array ==> params@[j]->Array_0@.len() > 0,
        decreases params@.len() - i,
    {
        match &params[i] {
            Value::Array(a) => {
                if a.len() == 0 {
                    return false;
                }
            },
            _ => {},
        }
        i = i + 1;
    }
    true
}

/// The batch without its hide events, in order.
pub open spec fn without_hides(s: Seq<Value>) -> Seq<Value>
    decreases s.len(),
{
    if s.len() == 0 {
        Seq::empty()
    } else if is_hide(s.last()) {
        without_hides(s.drop_last())
    } else {
        without_hides(s.drop_last()).push(s.last())
    }
}

/// Filtering a batch leaves no hide event in it.
pub proof fn law_filter_leaves_no_hides(s: Seq<Value>)
    ensures
        forall|i: int| 0 <= i < without_hides(s).len() ==> !is_hide(#[trigger] without_hides(s)[i]),
    decreases s.len(),
{
    if s.len() > 0 {
        law_filter_leaves_no_hides(s.drop_last());
        let p = without_hides(s.drop_last());
        if !is_hide(s.last()) {
            assert forall|i: int| 0 <= i < without_hides(s).len() implies !is_hide(#[trigger] without_hides(s)[i]) by {
                if i < p.len() {
                    assert(without_hides(s)[i] == p[i]);
                }
            }
        }
    }
}

/// Filtering a batch a second time changes nothing.
pub proof fn law_filter_idempotent(s: Seq<Value>)
    ensures
        without_hides(without_hides(s)) == without_hides(s),
{
    law_filter_leaves_no_hides(s);
    lemma_without_hides_of_clean(without_hides(s));
}

proof fn lemma_without_hides_of_clean(s: Seq<Value>)
    requires
        forall|i: int| 0 <= i < s.len() ==> !is_hide(#[trigger] s[i]),
    ensures
        without_hides(s) == s,
    decreases s.len(),
{
    if s.len() > 0 {
        let p = s.drop_last();
        assert forall|i: int| 0 <= i < p.len() implies !is_hide(#[trigger] p[i]) by {
            assert(p[i] == s[i]);
        }
        lemma_without_hides_of_clean(p);
        assert(!is_hide(s[s.len() - 1]));
        assert(p.push(s.last()) =~= s);
    }
}

/// The index of the last hide event of the batch.
pub open spec fn last_hide(s: Seq<Value>) -> Option<int>
    decreases s.len(),
{
    if s.len() == 0 {
        None
    } else if is_hide(s.last()) {
        Some(s.len() - 1)
    } else {
        last_hide(s.drop_last())
    }
}

/// A show event stands at `i` or after it.
pub open spec fn has_show_from(s: Seq<Value>, i: int) -> bool {
    exists|j: int| i <= j < s.len() && #[trigger] is_show(s[j])
}

/// The hide event that is kept back for the next batch: the last one, where no
/// show event follows it.
pub open spec fn delayed_hide(s: Seq<Value>) -> Option<int> {
    match last_hide(s) {
        Some(h) => if has_show_from(s, h + 1) {
            None
        } else {
            Some(h)
        },
        None => None,
    }
}

/// The number of show events at `i` or after it.
pub open spec fn count_shows_from(s: Seq<Value>, i: int) -> nat
    decreases s.len() - i,
{
    if i < 0 || i >= s.len() {
        0
    } else {
        (if is_show(s[i]) { 1nat } else { 0nat }) + count_shows_from(s, i + 1)
    }
}

/// The last hide event of a batch is one, and none follows it.
proof fn lemma_last_hide(s: Seq<Value>)
    ensures
        last_hide(s) is Some ==> 0 <= last_hide(s)->0 < s.len() && is_hide(s[last_hide(s)->0]) && forall|j: int|
            last_hide(s)->0 < j < s.len() ==> !#[trigger] is_hide(s[j]),
        last_hide(s) is None ==> forall|j: int| 0 <= j < s.len() ==> !#[trigger] is_hide(s[j]),
    decreases s.len(),
{
    if s.len() > 0 {
        let p = s.drop_last();
        lemma_last_hide(p);
        assert forall|j: int| 0 <= j < p.len() implies p[j] == s[j] by {}
        if !is_hide(s.last()) {
            if last_hide(p) is Some {
                assert forall|j: int| last_hide(s)->0 < j < s.len() implies !#[trigger] is_hide(s[j]) by {
                    if j < s.len() - 1 {
                        assert(p[j] == s[j]);
                    }
                }
            } else {
                assert forall|j: int| 0 <= j < s.len() implies !#[trigger] is_hide(s[j]) by {
                    if j < s.len() - 1 {
                        assert(p[j] == s[j]);
                    }
                }
            }
        }
    }
}

/// What filtering a batch asks of the handler.
pub struct PopupFilter {
    /// How many times a scheduled redraw event is cancelled.
    pub cancels: usize,
    /// The hide event to schedule for later, if any.
    pub delayed: Option<Value>,
}

/// The event's name, where it is an array that starts with a string.
fn name_of(v: &Value) -> (r: Option<&str>)
    requires
        v is Array ==> v->Array_0@.len() > 0,
    ensures
        r is Some <==> event_name(*v) is Some,
        r matches Some(n) ==> n@ == event_name(*v)->0,
{
    match v {
        Value::Array(a) => a[0].as_str(),
        _ => None,
    }
}

/// Whether the event is a show and whether it is a hide of the completion menu.
fn show_or_hide(v: &Value) -> (r: (bool, bool))
    requires
        v is Array ==> v->Array_0@.len() > 0,
    ensures
        r.0 == is_show(*v),
        r.1 == is_hide(*v),
        !(r.0 && r.1),
{
    proof {
        reveal_strlit("popupmenu_show");
        reveal_strlit("popupmenu_hide");
        assert("popupmenu_show"@[10] != "popupmenu_hide"@[10]);
    }
    match name_of(v) {
        Some(n) => (str_eq(n, "popupmenu_show"), str_eq(n, "popupmenu_hide")),
        None => (false, false),
    }
}

/// The hide events of a batch are dropped: one that menu content shows again
/// in the same batch is not needed, and the last one, when no show follows
/// it, is handed back to be scheduled for later, as a show may come in the
/// next batch. Each show, and the hide handed back, cancels a scheduled
/// redraw event.
pub fn remove_or_delay_uneeded_events(params: &mut Vec<Value>) -> (r: PopupFilter)
    requires
        events_named(old(params)@),
    ensures
        final(params)@ == without_hides(old(params)@),
        r.delayed is Some <==> delayed_hide(old(params)@) is Some,
        r.delayed matches Some(v) ==> v == old(params)@[delayed_hide(old(params)@)->0],
        r.cancels == count_shows_from(old(params)@, 0) + (if delayed_hide(old(params)@) is Some {
            1int
        } else {
            0int
        }),
{
    let ghost all = params@;
    proof {
        lemma_last_hide(all);
        assert(all.len() <= usize::MAX) by {
            assert(params.len() == all.len());
        }
    }
    // scan from the end, as the events are read
    let mut show_found = false;
    let mut delayed_idx: Option<usize> = None;
    let ghost mut hide_seen = false;
    let mut cancels: usize = 0;
    let mut i = params.len();
    while i > 0
        invariant
            i <= all.len(),
            params@ == all,
            events_named(all),
            show_found == has_show_from(all, i as int),
            hide_seen <==> exists|j: int| i <= j < all.len() && #[trigger] is_hide(all[j]),
            last_hide(all) is Some ==> 0 <= last_hide(all)->0 < all.len() && is_hide(all[last_hide(all)->0])
                && forall|j: int| last_hide(all)->0 < j < all.len() ==> !#[trigger] is_hide(all[j]),
            last_hide(all) is None ==> forall|j: int| 0 <= j < all.len() ==> !#[trigger] is_hide(all[j]),
            delayed_idx is Some <==> hide_seen && delayed_hide(all) is Some,
            delayed_idx is Some ==> delayed_idx->0 == delayed_hide(all)->0,
            cancels == count_shows_from(all, i as int) + (if delayed_idx is Some { 1int } else { 0int }),
            count_shows_from(all, i as int) + (if hide_seen { 1int } else { 0int }) <= all.len() - i,
            all.len() <= usize::MAX,
        decreases i,
    {
        let idx = i - 1;
        proof {
            assert(all[idx as int] is Array ==> all[idx as int]->Array_0@.len() > 0);
        }
        let (is_show_ev, is_hide_ev) = show_or_hide(&params[idx]);
        proof {
            assert(count_shows_from(all, idx as int) == (if is_show_ev { 1nat } else { 0nat }) + count_shows_from(all, i as int));
            if is_show_ev {
                assert(has_show_from(all, idx as int));
            } else {
                assert(has_show_from(all, idx as int) == has_show_from(all, i as int)) by {
                    if has_show_from(all, idx as int) {
                        let j = choose|j: int| idx <= j < all.len() && #[trigger] is_show(all[j]);
                        assert(j != idx);
                    }
                }
            }
            if is_hide_ev && !hide_seen {
                // the first hide met from the end is the last one
                assert(last_hide(all) == Some(idx as int)) by {
                    if last_hide(all) is None {
                        assert(!is_hide(all[idx as int]));
                    } else {
                        let h = last_hide(all)->0;
                        if h > idx {
                            assert(is_hide(all[h]));
                        } else if h < idx {
                            assert(!is_hide(all[idx as int]));
                        }
                    }
                }
            }
            if hide_seen {
                let h = last_hide(all)->0;
                assert(last_hide(all) is Some && h >= i) by {
                    let j = choose|j: int| i <= j < all.len() && #[trigger] is_hide(all[j]);
                    if last_hide(all) is None {
                        assert(!is_hide(all[j]));
                    } else if h < j {
                        assert(!is_hide(all[j]));
                    }
                }
                if delayed_hide(all) is None {
                    assert(has_show_from(all, h + 1));
                    let j = choose|j: int| h + 1 <= j < all.len() && #[trigger] is_show(all[j]);
                    assert(has_show_from(all, i as int));
                }
            }
        }
        if is_show_ev {
            show_found = true;
            cancels = cancels + 1;
        } else if is_hide_ev && !show_found && delayed_idx.is_none() {
            delayed_idx = Some(idx);
            cancels = cancels + 1;
        }
        proof {
            if is_hide_ev {
                hide_seen = true;
            }
            assert(hide_seen <==> exists|j: int| idx <= j < all.len() && #[trigger] is_hide(all[j])) by {
                if exists|j: int| idx <= j < all.len() && #[trigger] is_hide(all[j]) {
                    let j = choose|j: int| idx <= j < all.len() && #[trigger] is_hide(all[j]);
                    if j > idx {
                        assert(i <= j < all.len() && is_hide(all[j]));
                    }
                }
                if hide_seen && !is_hide_ev {
                    let j = choose|j: int| i <= j < all.len() && #[trigger] is_hide(all[j]);
                    assert(idx <= j < all.len() && is_hide(all[j]));
                }
            }
        }
        i = idx;
    }
    proof {
        if delayed_hide(all) is Some {
            let h = last_hide(all)->0;
            assert(is_hide(all[h]));
        }
    }
    // drop the hide events, keeping the delayed one aside
    let mut taken: Vec<Value> = Vec::new();
    std::mem::swap(&mut taken, params);
    let mut delayed: Option<Value> = None;
    let mut k: usize = 0;
    proof {
        assert(all.take(0) =~= Seq::<Value>::empty());
        assert(taken@ =~= all.skip(0));
    }
    while taken.len() > 0
        invariant
            k <= all.len(),
            taken@ == all.skip(k as int),
            params@ == without_hides(all.take(k as int)),
            events_named(all),
            all.len() <= usize::MAX,
            delayed_idx is Some ==> delayed_idx->0 < all.len() && is_hide(all[delayed_idx->0 as int]),
            delayed is Some <==> delayed_idx is Some && delayed_idx->0 < k,
            delayed is Some ==> delayed->0 == all[delayed_idx->0 as int],
        decreases taken@.len(),
    {
        let v = taken.remove(0);
        proof {
            assert(v == all[k as int]);
            assert(taken@ =~= all.skip(k + 1));
            let t = all.take(k + 1);
            assert(t.drop_last() =~= all.take(k as int));
            assert(t.last() == all[k as int]);
            assert(all[k as int] is Array ==> all[k as int]->Array_0@.len() > 0);
        }
        let (_, hide) = show_or_hide(&v);
        if hide {
            match delayed_idx {
                Some(d) => {
                    if d == k {
                        delayed = Some(v);
                    }
                },
                None => {},
            }
        } else {
            params.push(v);
        }
        k = k + 1;
    }
    proof {
        assert(all.skip(k as int).len() == 0);
        assert(all.take(k as int) =~= all);
    }
    PopupFilter { cancels, delayed }
}


/// Whether every tab reached with no error before it binds `tab`.
fn tabs_are_total(items: &Vec<Value>) -> (r: bool)
    ensures
        r == tabs_total(items@),
{
    let mut i: usize = 0;
    proof {
        assert(items@.take(0) =~= Seq::<Value>::empty());
    }
    while i < items.len()
        invariant
            i <= items@.len(),
            tab_entries(items@.take(i as int)) is Ok,
            forall|j: int|
                0 <= j < i && tab_entries(items@.take(j)) is Ok && #[trigger] tab_entry(items@[j]) is Ok
                    ==> tab_has_id(items@[j]),
        decreases items@.len() - i,
    {
        proof {
            assert(items@.take(i + 1).drop_last() =~= items@.take(i as int));
            assert(items@.take(i + 1).last() == items@[i as int]);
        }
        let entry_ok = match &items[i] {
            Value::Table(pairs) => keys_are_str(pairs),
            _ => false,
        };
        if entry_ok {
            let has_id = match &items[i] {
                Value::Table(pairs) => last_key_index(pairs, "tab").is_some(),
                _ => false,
            };
            if !has_id {
                return false;
            }
        } else {
            proof {
                assert(tab_entries(items@.take(i + 1)) is Err);
                assert forall|j: int|
                    0 <= j < items@.len() && tab_entries(items@.take(j)) is Ok && #[trigger] tab_entry(items@[j]) is Ok
                        implies tab_has_id(items@[j]) by {
                    if j > i {
                        let t = items@.take(j);
                        assert(t.take(i + 1) =~= items@.take(i + 1));
                        lemma_tab_entries_prefix_err(t, i + 1);
                    }
                }
            }
            return true;
        }
        i = i + 1;
    }
    true
}

/// Whether decoding the redraw call `method` from `args` stays within its
/// arguments (what `call` asks of its caller).
pub fn call_is_total(method: &str, args: &Vec<Value>) -> (r: bool)
    ensures
        r == call_total(method@, args@),
{
    let popup = str_eq(method, "popupmenu_show");
    let tabline = str_eq(method, "tabline_update");
    proof {
        reveal_strlit("popupmenu_show");
        reveal_strlit("tabline_update");
        assert("popupmenu_show"@[0] != "tabline_update"@[0]);
    }
    if popup {
        if args.len() < 1 {
            return false;
        }
        if read_menu(&args[0]).is_err() {
            return true;
        }
        if args.len() < 2 {
            return false;
        }
        if args[1].as_i64().is_none() {
            return true;
        }
        if args.len() < 3 {
            return false;
        }
        if args[2].as_u64().is_none() {
            return true;
        }
        args.len() >= 4
    } else if tabline {
        if args.len() < 2 {
            return false;
        }
        match &args[1] {
            Value::Array(items) => tabs_are_total(items),
            _ => true,
        }
    } else {
        true
    }
}

} // verus!

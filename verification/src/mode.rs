//! The editor mode neovim reports, and the cursor style of each mode.
use vstd::prelude::*;

use crate::text::str_eq;
use crate::value::{AttrsMap, Value};

verus! {

#[derive(Clone, Copy, PartialEq, Eq, Structural, Debug)]
pub enum NvimMode {
    Normal,
    Insert,
    Other,
}

#[derive(Clone, Copy, PartialEq, Eq, Structural, Debug)]
pub enum CursorShape {
    Block,
    Horizontal,
    Vertical,
    Unknown,
}

/// The shape a `cursor_shape` name stands for.
pub open spec fn shape_of(name: Seq<char>) -> CursorShape {
    if name == "block"@ {
        CursorShape::Block
    } else if name == "horizontal"@ {
        CursorShape::Horizontal
    } else if name == "vertical"@ {
        CursorShape::Vertical
    } else {
        CursorShape::Unknown
    }
}

impl CursorShape {
    /// Reads a cursor shape name; a value that is not a string is an error.
    pub fn new(shape_code: &Value) -> (r: Result<CursorShape, String>)
        ensures
            r is Ok <==> shape_code.spec_as_str() is Some,
            r matches Ok(shape) ==> shape == shape_of(shape_code.spec_as_str()->0),
            r matches Err(e) ==> e@ == "Can't convert cursor shape to string"@,
    {
        let str_code = match shape_code.as_str() {
            Some(s) => s,
            None => return Err("Can't convert cursor shape to string".to_owned()),
        };
        if str_eq(str_code, "block") {
            Ok(CursorShape::Block)
        } else if str_eq(str_code, "horizontal") {
            Ok(CursorShape::Horizontal)
        } else if str_eq(str_code, "vertical") {
            Ok(CursorShape::Vertical)
        } else {
            Ok(CursorShape::Unknown)
        }
    }
}

/// Cursor style of one mode, as `mode_info_set` describes it.
#[derive(Clone, Copy, PartialEq, Eq, Structural, Debug)]
pub struct ModeInfo {
    pub cursor_shape: Option<CursorShape>,
    pub cell_percentage: Option<u64>,
    pub blinkwait: Option<u32>,
}

/// A mode info can be read from these key-value pairs: every key is a
/// string, and `cursor_shape`, where it is there, is a string.
pub open spec fn mode_info_readable(pairs: Seq<(Value, Value)>) -> bool {
    crate::value::all_keys_str(pairs) && !(crate::value::attrs_lookup(pairs, "cursor_shape"@) matches Some(v)
        && v.spec_as_str() is None)
}

/// Why a mode info cannot be read from these pairs.
pub open spec fn mode_info_error(pairs: Seq<(Value, Value)>) -> Seq<char> {
    if crate::value::all_keys_str(pairs) {
        "Can't convert cursor shape to string"@
    } else {
        "Can't convert map key to string"@
    }
}

/// `info` is what the pairs say: the cursor shape, the cell percentage, and
/// the blink wait (taken as `u32`), each where it is there.
pub open spec fn reads_mode_info(pairs: Seq<(Value, Value)>, info: ModeInfo) -> bool {
    &&& info.cursor_shape == (match crate::value::attrs_lookup(pairs, "cursor_shape"@) {
        Some(v) => Some(shape_of(v.spec_as_str()->0)),
        None => None,
    })
    &&& info.cell_percentage == (match crate::value::attrs_lookup(pairs, "cell_percentage"@) {
        Some(v) => v.spec_as_u64(),
        None => None,
    })
    &&& info.blinkwait == (match crate::value::attrs_lookup(pairs, "blinkwait"@) {
        Some(v) => match v.spec_as_u64() {
            Some(n) => Some(n as u32),
            None => None,
        },
        None => None,
    })
}

impl ModeInfo {
    /// Reads the attributes `cursor_shape`, `cell_percentage` and `blinkwait`;
    /// fails only where `cursor_shape` is there and is not a string.
    pub fn new(mode_info_map: &AttrsMap) -> (r: Result<ModeInfo, String>)
        ensures
            r is Err <==> (mode_info_map.spec_get("cursor_shape"@) matches Some(v)
                && v.spec_as_str() is None),
            r matches Err(e) ==> e@ == "Can't convert cursor shape to string"@,
            r matches Ok(info) ==> {
                &&& info.cursor_shape == (match mode_info_map.spec_get("cursor_shape"@) {
                    Some(v) => Some(shape_of(v.spec_as_str()->0)),
                    None => None,
                })
                &&& info.cell_percentage == (match mode_info_map.spec_get("cell_percentage"@) {
                    Some(v) => v.spec_as_u64(),
                    None => None,
                })
                &&& info.blinkwait == (match mode_info_map.spec_get("blinkwait"@) {
                    Some(v) => match v.spec_as_u64() {
                        Some(n) => Some(n as u32),
                        None => None,
                    },
                    None => None,
                })
            },
    {
        let cursor_shape = match mode_info_map.get("cursor_shape") {
            Some(shape) => match CursorShape::new(shape) {
                Ok(s) => Some(s),
                Err(e) => return Err(e),
            },
            None => None,
        };
        let cell_percentage = match mode_info_map.get("cell_percentage") {
            Some(cp) => cp.as_u64(),
            None => None,
        };
        let blinkwait = match mode_info_map.get("blinkwait") {
            Some(bw) => match bw.as_u64() {
                Some(v) => Some(v as u32),
                None => None,
            },
            None => None,
        };
        Ok(ModeInfo { cursor_shape, cell_percentage, blinkwait })
    }

    /// Reads the mode info from the key-value pairs of a MessagePack map;
    /// fails where a key is not a string or `cursor_shape` is not a string.
    pub fn from_pairs(mode_info_arr: &Vec<(Value, Value)>) -> (r: Result<ModeInfo, String>)
        ensures
            r is Ok <==> mode_info_readable(mode_info_arr@),
            r matches Err(e) ==> e@ == mode_info_error(mode_info_arr@),
            r matches Ok(info) ==> reads_mode_info(mode_info_arr@, info),
    {
        match AttrsMap::from_pairs(mode_info_arr) {
            Ok(m) => {
                proof {
                    crate::value::lemma_attrs_get(m, mode_info_arr@, "cursor_shape"@);
                    crate::value::lemma_attrs_get(m, mode_info_arr@, "cell_percentage"@);
                    crate::value::lemma_attrs_get(m, mode_info_arr@, "blinkwait"@);
                }
                ModeInfo::new(&m)
            },
            Err(e) => Err(e),
        }
    }

    pub fn cursor_shape(&self) -> (r: Option<&CursorShape>)
        ensures
            r is Some <==> self.cursor_shape is Some,
            r matches Some(s) ==> *s == self.cursor_shape->0,
    {
        match &self.cursor_shape {
            Some(s) => Some(s),
            None => None,
        }
    }

    /// The cell percentage, zero when the mode gives none.
    pub fn cell_percentage(&self) -> (r: u64)
        ensures
            r == match self.cell_percentage {
                Some(p) => p,
                None => 0,
            },
    {
        match self.cell_percentage {
            Some(p) => p,
            None => 0,
        }
    }
}

/// The current mode, the index of its style, and the styles of all modes.
pub struct Mode {
    pub mode: NvimMode,
    pub idx: usize,
    pub info: Option<Vec<ModeInfo>>,
}

/// The mode a `mode_change` name stands for.
pub open spec fn mode_of(name: Seq<char>) -> NvimMode {
    if name == "normal"@ {
        NvimMode::Normal
    } else if name == "insert"@ {
        NvimMode::Insert
    } else {
        NvimMode::Other
    }
}

impl Mode {
    pub fn new() -> (m: Self)
        ensures
            m.mode == NvimMode::Normal,
            m.idx == 0,
            m.info is None,
    {
        Mode { mode: NvimMode::Normal, idx: 0, info: None }
    }

    pub fn is(&self, mode: &NvimMode) -> (r: bool)
        ensures
            r == (self.mode == *mode),
    {
        self.mode == *mode
    }

    /// The style of the current mode, if styles are known and the index is in range.
    pub fn mode_info(&self) -> (r: Option<&ModeInfo>)
        ensures
            r is Some <==> (self.info matches Some(v) && self.idx < v@.len()),
            r matches Some(i) ==> *i == self.info->0@[self.idx as int],
    {
        match &self.info {
            Some(v) => if self.idx < v.len() {
                Some(&v[self.idx])
            } else {
                None
            },
            None => None,
        }
    }

    /// Switches to the mode named `mode`, whose style is at `idx`.
    pub fn update(&mut self, mode: &str, idx: usize)
        ensures
            final(self).mode == mode_of(mode@),
            final(self).idx == idx,
            final(self).info == old(self).info,
    {
        if str_eq(mode, "normal") {
            self.mode = NvimMode::Normal;
        } else if str_eq(mode, "insert") {
            self.mode = NvimMode::Insert;
        } else {
            self.mode = NvimMode::Other;
        }
        self.idx = idx;
    }

    /// Keeps the styles when cursor styling is on, and drops them when it is off.
    pub fn set_info(&mut self, cursor_style_enabled: bool, info: Vec<ModeInfo>)
        ensures
            final(self).info == (if cursor_style_enabled { Some(info) } else { None }),
            final(self).mode == old(self).mode,
            final(self).idx == old(self).idx,
    {
        self.info = if cursor_style_enabled { Some(info) } else { None };
    }
}

/// Each cursor shape name reads as its own shape: `block` as a block,
/// `horizontal` as a horizontal bar (an underline), `vertical` as a vertical
/// bar; any other name as an unknown shape. A mode info read from pairs
/// whose `cursor_shape` is one of these names has that shape.
pub proof fn law_cursor_shape_names(name: Seq<char>, pairs: Seq<(Value, Value)>, info: ModeInfo)
    ensures
        shape_of("block"@) == CursorShape::Block,
        shape_of("horizontal"@) == CursorShape::Horizontal,
        shape_of("vertical"@) == CursorShape::Vertical,
        name != "block"@ && name != "horizontal"@ && name != "vertical"@ ==> shape_of(name) == CursorShape::Unknown,
        reads_mode_info(pairs, info) && (crate::value::attrs_lookup(pairs, "cursor_shape"@) matches Some(v)
            && v.spec_as_str() == Some("horizontal"@)) ==> info.cursor_shape == Some(CursorShape::Horizontal),
        reads_mode_info(pairs, info) && (crate::value::attrs_lookup(pairs, "cursor_shape"@) matches Some(v)
            && v.spec_as_str() == Some("vertical"@)) ==> info.cursor_shape == Some(CursorShape::Vertical),
        reads_mode_info(pairs, info) && (crate::value::attrs_lookup(pairs, "cursor_shape"@) matches Some(v)
            && v.spec_as_str() == Some("block"@)) ==> info.cursor_shape == Some(CursorShape::Block),
{
    reveal_strlit("block");
    reveal_strlit("horizontal");
    reveal_strlit("vertical");
    assert("block"@[0] == 'b' && "horizontal"@[0] == 'h' && "vertical"@[0] == 'v');
}

} // verus!

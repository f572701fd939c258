//! Highlight attributes of cells and the table of highlight groups.
use fnv::FnvHashMap;
use vstd::prelude::*;

use crate::color::{black, color_black, color_red, color_white, red, spec_from_indexed, white, Color};
use crate::fnv_map::{fnv_map_get, fnv_map_insert, fnv_map_new};
use crate::text::str_eq;
use crate::ui_model::Cell;
use crate::value::{AttrsMap, Value};

verus! {

/// How a cell is drawn: font style, decorations and colors.
#[derive(Clone, Copy, PartialEq, Eq, Structural, Debug)]
pub struct Highlight {
    pub italic: bool,
    pub bold: bool,
    pub underline: bool,
    pub undercurl: bool,
    pub foreground: Option<Color>,
    pub background: Option<Color>,
    pub special: Option<Color>,
    pub reverse: bool,
}

pub open spec fn plain_highlight() -> Highlight {
    Highlight {
        foreground: None,
        background: None,
        special: None,
        italic: false,
        bold: false,
        underline: false,
        undercurl: false,
        reverse: false,
    }
}

/// The color an attribute of the map gives, where it is there and is a number.
pub open spec fn attr_color(attrs: AttrsMap, key: Seq<char>) -> Option<Color> {
    match attrs.spec_get(key) {
        Some(v) => match v.spec_as_u64() {
            Some(c) => Some(spec_from_indexed(c)),
            None => None,
        },
        None => None,
    }
}

/// The highlight a map of attributes describes; a flag is set by the mere
/// presence of its key.
pub open spec fn spec_from_value_map(attrs: AttrsMap) -> Highlight {
    Highlight {
        foreground: attr_color(attrs, "foreground"@),
        background: attr_color(attrs, "background"@),
        special: attr_color(attrs, "special"@),
        reverse: attrs.spec_get("reverse"@) is Some,
        bold: attrs.spec_get("bold"@) is Some,
        italic: attrs.spec_get("italic"@) is Some,
        underline: attrs.spec_get("underline"@) is Some,
        undercurl: attrs.spec_get("undercurl"@) is Some,
    }
}

fn get_color(attrs: &AttrsMap, key: &str) -> (r: Option<Color>)
    ensures
        r == attr_color(*attrs, key@),
{
    match attrs.get(key) {
        Some(v) => match v.as_u64() {
            Some(c) => Some(Color::from_indexed_color(c)),
            None => None,
        },
        None => None,
    }
}

/// The color an attribute gives in a map read from `pairs`.
pub open spec fn pairs_color(pairs: Seq<(Value, Value)>, key: Seq<char>) -> Option<Color> {
    match crate::value::attrs_lookup(pairs, key) {
        Some(v) => match v.spec_as_u64() {
            Some(c) => Some(spec_from_indexed(c)),
            None => None,
        },
        None => None,
    }
}

/// The highlight that a map read from `pairs` describes.
pub open spec fn highlight_of_pairs(pairs: Seq<(Value, Value)>) -> Highlight {
    Highlight {
        foreground: pairs_color(pairs, "foreground"@),
        background: pairs_color(pairs, "background"@),
        special: pairs_color(pairs, "special"@),
        reverse: crate::value::attrs_lookup(pairs, "reverse"@) is Some,
        bold: crate::value::attrs_lookup(pairs, "bold"@) is Some,
        italic: crate::value::attrs_lookup(pairs, "italic"@) is Some,
        underline: crate::value::attrs_lookup(pairs, "underline"@) is Some,
        undercurl: crate::value::attrs_lookup(pairs, "undercurl"@) is Some,
    }
}

/// A map read from `pairs` describes the highlight the pairs do.
pub proof fn lemma_highlight_of_pairs(m: AttrsMap, pairs: Seq<(Value, Value)>)
    requires
        m.reads_as(pairs),
    ensures
        spec_from_value_map(m) == highlight_of_pairs(pairs),
{
    crate::value::lemma_attrs_get(m, pairs, "foreground"@);
    crate::value::lemma_attrs_get(m, pairs, "background"@);
    crate::value::lemma_attrs_get(m, pairs, "special"@);
    crate::value::lemma_attrs_get(m, pairs, "reverse"@);
    crate::value::lemma_attrs_get(m, pairs, "bold"@);
    crate::value::lemma_attrs_get(m, pairs, "italic"@);
    crate::value::lemma_attrs_get(m, pairs, "underline"@);
    crate::value::lemma_attrs_get(m, pairs, "undercurl"@);
}

impl Highlight {
    pub fn new() -> (h: Self)
        ensures
            h == plain_highlight(),
    {
        Highlight {
            foreground: None,
            background: None,
            special: None,
            italic: false,
            bold: false,
            underline: false,
            undercurl: false,
            reverse: false,
        }
    }

    pub fn from_value_map(attrs: &AttrsMap) -> (h: Self)
        ensures
            h == spec_from_value_map(*attrs),
    {
        Highlight {
            foreground: get_color(attrs, "foreground"),
            background: get_color(attrs, "background"),
            special: get_color(attrs, "special"),
            reverse: attrs.get("reverse").is_some(),
            bold: attrs.get("bold").is_some(),
            italic: attrs.get("italic").is_some(),
            underline: attrs.get("underline").is_some(),
            undercurl: attrs.get("undercurl").is_some(),
        }
    }
}

/// The special groups a `hi_name` in the info of a highlight may name.
pub enum SpecialGroup {
    Pmenu,
    PmenuSel,
    Cursor,
    Other,
}

pub open spec fn special_group(info: AttrsMap) -> SpecialGroup {
    match info.spec_get("hi_name"@) {
        Some(v) => match v.spec_as_str() {
            Some(name) => if name == "Pmenu"@ {
                SpecialGroup::Pmenu
            } else if name == "PmenuSel"@ {
                SpecialGroup::PmenuSel
            } else if name == "Cursor"@ {
                SpecialGroup::Cursor
            } else {
                SpecialGroup::Other
            },
            None => SpecialGroup::Other,
        },
        None => SpecialGroup::Other,
    }
}

/// The last of `infos` that names `group`, if any.
pub open spec fn last_naming(infos: Seq<AttrsMap>, group: SpecialGroup) -> bool
    decreases infos.len(),
{
    if infos.len() == 0 {
        false
    } else {
        special_group(infos.last()) == group || last_naming(infos.drop_last(), group)
    }
}

fn group_of(info: &AttrsMap) -> (g: SpecialGroup)
    ensures
        g == special_group(*info),
{
    match info.get("hi_name") {
        Some(v) => match v.as_str() {
            Some(name) => if str_eq(name, "Pmenu") {
                SpecialGroup::Pmenu
            } else if str_eq(name, "PmenuSel") {
                SpecialGroup::PmenuSel
            } else if str_eq(name, "Cursor") {
                SpecialGroup::Cursor
            } else {
                SpecialGroup::Other
            },
            None => SpecialGroup::Other,
        },
        None => SpecialGroup::Other,
    }
}

/// The highlight groups neovim has defined, by id, with the default colors.
pub struct HighlightMap {
    pub highlights: FnvHashMap<u64, Highlight>,
    pub default_hl: Highlight,
    pub bg_color: Color,
    pub fg_color: Color,
    pub sp_color: Color,
    pub cterm_bg_color: Color,
    pub cterm_fg_color: Color,
    pub cterm_color: bool,
    pub pmenu: Highlight,
    pub pmenu_sel: Highlight,
    pub cursor: Highlight,
}

/// `b` where `reverse` is off, else `a`, with `d` where that is `None`.
pub open spec fn pick(reverse: bool, a: Option<Color>, b: Option<Color>, d_a: Color, d_b: Color) -> Color {
    if !reverse {
        match b { Some(c) => c, None => d_b }
    } else {
        match a { Some(c) => c, None => d_a }
    }
}

impl HighlightMap {
    pub open spec fn spec_bg(&self) -> Color {
        if self.cterm_color { self.cterm_bg_color } else { self.bg_color }
    }

    pub open spec fn spec_fg(&self) -> Color {
        if self.cterm_color { self.cterm_fg_color } else { self.fg_color }
    }

    /// The highlight `idx` names, else that of id 0, else the plain default.
    pub open spec fn spec_get(&self, idx: Option<u64>) -> Highlight {
        match idx {
            Some(i) if self.highlights@.contains_key(i) => self.highlights@[i],
            _ => if self.highlights@.contains_key(0) {
                self.highlights@[0]
            } else {
                self.default_hl
            },
        }
    }

    pub fn new() -> (m: Self)
        ensures
            m.highlights@ == Map::<u64, Highlight>::empty(),
            m.default_hl == plain_highlight(),
            m.bg_color == color_black(),
            m.fg_color == color_white(),
            m.sp_color == color_red(),
            m.cterm_bg_color == color_black(),
            m.cterm_fg_color == color_white(),
            !m.cterm_color,
            m.pmenu == plain_highlight(),
            m.pmenu_sel == plain_highlight(),
            m.cursor == plain_highlight(),
    {
        let default_hl = Highlight::new();
        let highlights = fnv_map_new();
        proof {
            assert(highlights@ =~= Map::<u64, Highlight>::empty());
        }
        HighlightMap {
            highlights,
            bg_color: black(),
            fg_color: white(),
            sp_color: red(),
            cterm_bg_color: black(),
            cterm_fg_color: white(),
            cterm_color: false,
            pmenu: default_hl,
            pmenu_sel: default_hl,
            cursor: default_hl,
            default_hl,
        }
    }

    pub fn default_hl(&self) -> (h: Highlight)
        ensures
            h == self.default_hl,
    {
        self.default_hl
    }

    pub fn set_defaults(&mut self, fg: Color, bg: Color, sp: Color, cterm_fg: Color, cterm_bg: Color)
        ensures
            *final(self) == (HighlightMap {
                fg_color: fg,
                bg_color: bg,
                sp_color: sp,
                cterm_fg_color: cterm_fg,
                cterm_bg_color: cterm_bg,
                ..*old(self)
            }),
    {
        self.fg_color = fg;
        self.bg_color = bg;
        self.sp_color = sp;
        self.cterm_fg_color = cterm_fg;
        self.cterm_bg_color = cterm_bg;
    }

    pub fn set_use_cterm(&mut self, cterm_color: bool)
        ensures
            *final(self) == (HighlightMap { cterm_color, ..*old(self) }),
    {
        self.cterm_color = cterm_color;
    }

    /// Default background: the terminal one when terminal colors are in use.
    pub fn bg(&self) -> (c: Color)
        ensures
            c == self.spec_bg(),
    {
        if self.cterm_color { self.cterm_bg_color } else { self.bg_color }
    }

    /// Default foreground: the terminal one when terminal colors are in use.
    pub fn fg(&self) -> (c: Color)
        ensures
            c == self.spec_fg(),
    {
        if self.cterm_color { self.cterm_fg_color } else { self.fg_color }
    }

    pub fn get(&self, idx: Option<u64>) -> (h: Highlight)
        ensures
            h == self.spec_get(idx),
    {
        let found = match idx {
            Some(i) => fnv_map_get(&self.highlights, i),
            None => None,
        };
        match found {
            Some(h) => *h,
            None => match fnv_map_get(&self.highlights, 0) {
                Some(h) => *h,
                None => self.default_hl,
            },
        }
    }

    /// Defines highlight `idx` from its attributes; where one of `info` names
    /// the group `Pmenu`, `PmenuSel` or `Cursor`, it also becomes that group.
    pub fn set(&mut self, idx: u64, hl: &AttrsMap, info: &Vec<AttrsMap>)
        ensures
            final(self).highlights@ == old(self).highlights@.insert(idx, spec_from_value_map(*hl)),
            final(self).pmenu == (if last_naming(info@, SpecialGroup::Pmenu) {
                spec_from_value_map(*hl)
            } else {
                old(self).pmenu
            }),
            final(self).pmenu_sel == (if last_naming(info@, SpecialGroup::PmenuSel) {
                spec_from_value_map(*hl)
            } else {
                old(self).pmenu_sel
            }),
            final(self).cursor == (if last_naming(info@, SpecialGroup::Cursor) {
                spec_from_value_map(*hl)
            } else {
                old(self).cursor
            }),
            final(self).default_hl == old(self).default_hl,
            final(self).bg_color == old(self).bg_color,
            final(self).fg_color == old(self).fg_color,
            final(self).sp_color == old(self).sp_color,
            final(self).cterm_bg_color == old(self).cterm_bg_color,
            final(self).cterm_fg_color == old(self).cterm_fg_color,
            final(self).cterm_color == old(self).cterm_color,
    {
        let h = Highlight::from_value_map(hl);
        let mut i: usize = 0;
        while i < info.len()
            invariant
                i <= info@.len(),
                h == spec_from_value_map(*hl),
                self.highlights@ == old(self).highlights@,
                self.default_hl == old(self).default_hl,
                self.bg_color == old(self).bg_color,
                self.fg_color == old(self).fg_color,
                self.sp_color == old(self).sp_color,
                self.cterm_bg_color == old(self).cterm_bg_color,
                self.cterm_fg_color == old(self).cterm_fg_color,
                self.cterm_color == old(self).cterm_color,
                self.pmenu == (if last_naming(info@.take(i as int), SpecialGroup::Pmenu) { h } else { old(self).pmenu }),
                self.pmenu_sel == (if last_naming(info@.take(i as int), SpecialGroup::PmenuSel) { h } else { old(self).pmenu_sel }),
                self.cursor == (if last_naming(info@.take(i as int), SpecialGroup::Cursor) { h } else { old(self).cursor }),
            decreases info@.len() - i,
        {
            proof {
                let t = info@.take(i + 1);
                assert(t.drop_last() =~= info@.take(i as int));
                assert(t.last() == info@[i as int]);
            }
            match group_of(&info[i]) {
                SpecialGroup::Pmenu => self.pmenu = h,
                SpecialGroup::PmenuSel => self.pmenu_sel = h,
                SpecialGroup::Cursor => self.cursor = h,
                SpecialGroup::Other => {},
            }
            i = i + 1;
        }
        proof {
            assert(info@.take(i as int) =~= info@);
        }
        fnv_map_insert(&mut self.highlights, idx, h);
    }

    /// Foreground of a cell's text where set; reversed cells take the background.
    pub fn cell_fg(&self, cell: &Cell) -> (c: Option<Color>)
        ensures
            c == (if !cell.hl.reverse {
                cell.hl.foreground
            } else {
                match cell.hl.background {
                    Some(b) => Some(b),
                    None => Some(self.spec_bg()),
                }
            }),
    {
        if !cell.hl.reverse {
            cell.hl.foreground
        } else {
            match cell.hl.background {
                Some(b) => Some(b),
                None => Some(self.bg()),
            }
        }
    }

    pub fn actual_cell_fg(&self, cell: &Cell) -> (c: Color)
        ensures
            c == pick(cell.hl.reverse, cell.hl.background, cell.hl.foreground, self.spec_bg(), self.spec_fg()),
    {
        if !cell.hl.reverse {
            match cell.hl.foreground { Some(f) => f, None => self.fg() }
        } else {
            match cell.hl.background { Some(b) => b, None => self.bg() }
        }
    }

    /// Background of a cell where set; reversed cells take the foreground.
    pub fn cell_bg(&self, cell: &Cell) -> (c: Option<Color>)
        ensures
            c == (if !cell.hl.reverse {
                cell.hl.background
            } else {
                match cell.hl.foreground {
                    Some(f) => Some(f),
                    None => Some(self.spec_fg()),
                }
            }),
    {
        if !cell.hl.reverse {
            cell.hl.background
        } else {
            match cell.hl.foreground {
                Some(f) => Some(f),
                None => Some(self.fg()),
            }
        }
    }

    pub fn actual_cell_sp(&self, cell: &Cell) -> (c: Color)
        ensures
            c == (match cell.hl.special { Some(s) => s, None => self.sp_color }),
    {
        match cell.hl.special { Some(s) => s, None => self.sp_color }
    }

    pub fn pmenu_bg(&self) -> (c: Color)
        ensures
            c == pick(self.pmenu.reverse, self.pmenu.foreground, self.pmenu.background, self.spec_fg(), self.spec_bg()),
    {
        if !self.pmenu.reverse {
            match self.pmenu.background { Some(c) => c, None => self.bg() }
        } else {
            match self.pmenu.foreground { Some(c) => c, None => self.fg() }
        }
    }

    pub fn pmenu_fg(&self) -> (c: Color)
        ensures
            c == pick(self.pmenu.reverse, self.pmenu.background, self.pmenu.foreground, self.spec_bg(), self.spec_fg()),
    {
        if !self.pmenu.reverse {
            match self.pmenu.foreground { Some(c) => c, None => self.fg() }
        } else {
            match self.pmenu.background { Some(c) => c, None => self.bg() }
        }
    }

    pub fn pmenu_bg_sel(&self) -> (c: Color)
        ensures
            c == pick(self.pmenu_sel.reverse, self.pmenu_sel.foreground, self.pmenu_sel.background, self.spec_fg(), self.spec_bg()),
    {
        if !self.pmenu_sel.reverse {
            match self.pmenu_sel.background { Some(c) => c, None => self.bg() }
        } else {
            match self.pmenu_sel.foreground { Some(c) => c, None => self.fg() }
        }
    }

    pub fn pmenu_fg_sel(&self) -> (c: Color)
        ensures
            c == pick(self.pmenu_sel.reverse, self.pmenu_sel.background, self.pmenu_sel.foreground, self.spec_bg(), self.spec_fg()),
    {
        if !self.pmenu_sel.reverse {
            match self.pmenu_sel.foreground { Some(c) => c, None => self.fg() }
        } else {
            match self.pmenu_sel.background { Some(c) => c, None => self.bg() }
        }
    }

    pub fn cursor_bg(&self) -> (c: Color)
        ensures
            c == pick(self.cursor.reverse, self.cursor.foreground, self.cursor.background, self.spec_fg(), self.spec_bg()),
    {
        if !self.cursor.reverse {
            match self.cursor.background { Some(c) => c, None => self.bg() }
        } else {
            match self.cursor.foreground { Some(c) => c, None => self.fg() }
        }
    }
}


/// A highlight read right after it is set is the one set.
pub proof fn law_set_then_get(before: HighlightMap, after: HighlightMap, idx: u64, hl: AttrsMap)
    requires
        after.highlights@ == before.highlights@.insert(idx, spec_from_value_map(hl)),
    ensures
        after.spec_get(Some(idx)) == spec_from_value_map(hl),
{
}

/// A highlight's text color is the color of the attribute `foreground`, its
/// background color that of `background`, and its special color that of
/// `special`, each where the attribute is there and is a number; a color
/// number `0xRRGGBB` gives the color with those red, green and blue parts.
pub proof fn law_colors_by_key(attrs: AttrsMap, pairs: Seq<(Value, Value)>, c: u64)
    ensures
        (attrs.spec_get("foreground"@) matches Some(v) && v.spec_as_u64() is Some) ==> spec_from_value_map(attrs).foreground
            == Some(spec_from_indexed(attrs.spec_get("foreground"@)->0.spec_as_u64()->0)),
        !(attrs.spec_get("foreground"@) matches Some(v) && v.spec_as_u64() is Some) ==> spec_from_value_map(attrs).foreground is None,
        (crate::value::attrs_lookup(pairs, "foreground"@) matches Some(v) && v.spec_as_u64() is Some) ==> highlight_of_pairs(pairs).foreground
            == Some(spec_from_indexed(crate::value::attrs_lookup(pairs, "foreground"@)->0.spec_as_u64()->0)),
        !(crate::value::attrs_lookup(pairs, "foreground"@) matches Some(v) && v.spec_as_u64() is Some) ==> highlight_of_pairs(pairs).foreground is None,
        (attrs.spec_get("background"@) matches Some(v) && v.spec_as_u64() is Some) ==> spec_from_value_map(attrs).background
            == Some(spec_from_indexed(attrs.spec_get("background"@)->0.spec_as_u64()->0)),
        !(attrs.spec_get("background"@) matches Some(v) && v.spec_as_u64() is Some) ==> spec_from_value_map(attrs).background is None,
        (crate::value::attrs_lookup(pairs, "background"@) matches Some(v) && v.spec_as_u64() is Some) ==> highlight_of_pairs(pairs).background
            == Some(spec_from_indexed(crate::value::attrs_lookup(pairs, "background"@)->0.spec_as_u64()->0)),
        !(crate::value::attrs_lookup(pairs, "background"@) matches Some(v) && v.spec_as_u64() is Some) ==> highlight_of_pairs(pairs).background is None,
        (attrs.spec_get("special"@) matches Some(v) && v.spec_as_u64() is Some) ==> spec_from_value_map(attrs).special
            == Some(spec_from_indexed(attrs.spec_get("special"@)->0.spec_as_u64()->0)),
        !(attrs.spec_get("special"@) matches Some(v) && v.spec_as_u64() is Some) ==> spec_from_value_map(attrs).special is None,
        (crate::value::attrs_lookup(pairs, "special"@) matches Some(v) && v.spec_as_u64() is Some) ==> highlight_of_pairs(pairs).special
            == Some(spec_from_indexed(crate::value::attrs_lookup(pairs, "special"@)->0.spec_as_u64()->0)),
        !(crate::value::attrs_lookup(pairs, "special"@) matches Some(v) && v.spec_as_u64() is Some) ==> highlight_of_pairs(pairs).special is None,
        c < 0x1000000 ==> spec_from_indexed(c) == Color((c / 0x10000) as u8, ((c / 0x100) % 0x100) as u8, (c % 0x100) as u8),
{
}

} // verus!

//! Colors as neovim sends them: 24-bit RGB.
use vstd::prelude::*;

use crate::text::push_char;

verus! {

/// An RGB color, each component from 0 to 255 (the fraction of full
/// intensity, times 255).
#[derive(Clone, Copy, PartialEq, Eq, Structural, Debug)]
pub struct Color(pub u8, pub u8, pub u8);

pub open spec fn color_black() -> Color {
    Color(0, 0, 0)
}

pub open spec fn color_white() -> Color {
    Color(255, 255, 255)
}

pub open spec fn color_red() -> Color {
    Color(255, 0, 0)
}

pub fn black() -> (c: Color)
    ensures
        c == color_black(),
{
    Color(0, 0, 0)
}

pub fn white() -> (c: Color)
    ensures
        c == color_white(),
{
    Color(255, 255, 255)
}

pub fn red() -> (c: Color)
    ensures
        c == color_red(),
{
    Color(255, 0, 0)
}

/// The color of a 0xRRGGBB number; bits above the low 24 are ignored.
pub open spec fn spec_from_indexed(indexed_color: u64) -> Color {
    Color(
        ((indexed_color / 0x10000) % 0x100) as u8,
        ((indexed_color / 0x100) % 0x100) as u8,
        (indexed_color % 0x100) as u8,
    )
}

/// Upper-case hexadecimal digit of `d`, for `d` below 16.
pub open spec fn hex_char(d: int) -> char {
    if d < 10 {
        crate::text::digit_char(d)
    } else if d == 10 {
        'A'
    } else if d == 11 {
        'B'
    } else if d == 12 {
        'C'
    } else if d == 13 {
        'D'
    } else if d == 14 {
        'E'
    } else {
        'F'
    }
}

/// Two upper-case hexadecimal digits of `b`.
pub open spec fn hex_byte(b: u8) -> Seq<char> {
    seq![hex_char((b / 16) as int), hex_char((b % 16) as int)]
}

fn hex_digit(d: u8) -> (c: char)
    requires
        d < 16,
    ensures
        c == hex_char(d as int),
{
    if d == 0 { '0' }
    else if d == 1 { '1' }
    else if d == 2 { '2' }
    else if d == 3 { '3' }
    else if d == 4 { '4' }
    else if d == 5 { '5' }
    else if d == 6 { '6' }
    else if d == 7 { '7' }
    else if d == 8 { '8' }
    else if d == 9 { '9' }
    else if d == 10 { 'A' }
    else if d == 11 { 'B' }
    else if d == 12 { 'C' }
    else if d == 13 { 'D' }
    else if d == 14 { 'E' }
    else { 'F' }
}

fn push_hex_byte(s: &mut String, b: u8)
    ensures
        final(s)@ == old(s)@ + hex_byte(b),
{
    push_char(s, hex_digit(b / 16));
    push_char(s, hex_digit(b % 16));
    proof {
        assert(s@ =~= old(s)@ + hex_byte(b));
    }
}

impl Color {
    pub fn from_indexed_color(indexed_color: u64) -> (c: Color)
        ensures
            c == spec_from_indexed(indexed_color),
    {
        let r = ((indexed_color >> 16) & 0xff) as u8;
        let g = ((indexed_color >> 8) & 0xff) as u8;
        let b = (indexed_color & 0xff) as u8;
        assert(((indexed_color >> 16) & 0xff) == (indexed_color / 0x10000) % 0x100) by (bit_vector);
        assert(((indexed_color >> 8) & 0xff) == (indexed_color / 0x100) % 0x100) by (bit_vector);
        assert((indexed_color & 0xff) == indexed_color % 0x100) by (bit_vector);
        Color(r, g, b)
    }

    /// Components scaled to 16 bits (full intensity 65535).
    pub fn to_u16(&self) -> (r: (u16, u16, u16))
        ensures
            r.0 == self.0 * 257,
            r.1 == self.1 * 257,
            r.2 == self.2 * 257,
    {
        (self.0 as u16 * 257, self.1 as u16 * 257, self.2 as u16 * 257)
    }

    /// `#RRGGBB` in upper-case hexadecimal.
    pub fn to_hex(&self) -> (s: String)
        ensures
            s@ == seq!['#'] + hex_byte(self.0) + hex_byte(self.1) + hex_byte(self.2),
    {
        let mut s = String::new();
        push_char(&mut s, '#');
        push_hex_byte(&mut s, self.0);
        push_hex_byte(&mut s, self.1);
        push_hex_byte(&mut s, self.2);
        proof {
            assert(s@ =~= seq!['#'] + hex_byte(self.0) + hex_byte(self.1) + hex_byte(self.2));
        }
        s
    }
}

} // verus!

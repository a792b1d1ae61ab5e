//! Colors and stroke styles, and their encoding on the wire to the drawing
//! surface: an 8-hex-digit string `#rrggbbaa`, alpha last, lowercase.

use vstd::prelude::*;

verus! {

/// An 8-bit RGBA color, non-premultiplied at the API boundary.
#[derive(Clone, Copy, PartialEq, Eq, Structural, Debug)]
pub struct Color {
    pub r: u8,
    pub g: u8,
    pub b: u8,
    pub a: u8,
}

/// A stroke style: a line width and a color. A zero width or a zero-alpha
/// color draws no visible line.
#[derive(Clone, Copy, PartialEq, Eq, Structural, Debug)]
pub struct Stroke {
    pub width: u32,
    pub color: Color,
}

impl Stroke {
    /// The stroke that draws nothing.
    pub fn none() -> (s: Stroke)
        ensures
            s == (Stroke { width: 0, color: Color { r: 0, g: 0, b: 0, a: 0 } }),
    {
        Stroke { width: 0, color: Color { r: 0, g: 0, b: 0, a: 0 } }
    }

    /// Whether this stroke is the "none" stroke.
    pub open spec fn is_none(self) -> bool {
        self.width == 0 && self.color == (Color { r: 0, g: 0, b: 0, a: 0 })
    }
}

/// The lowercase hexadecimal digit for a value below 16.
pub open spec fn hex_digit(v: int) -> char {
    if v == 0 { '0' }
    else if v == 1 { '1' }
    else if v == 2 { '2' }
    else if v == 3 { '3' }
    else if v == 4 { '4' }
    else if v == 5 { '5' }
    else if v == 6 { '6' }
    else if v == 7 { '7' }
    else if v == 8 { '8' }
    else if v == 9 { '9' }
    else if v == 10 { 'a' }
    else if v == 11 { 'b' }
    else if v == 12 { 'c' }
    else if v == 13 { 'd' }
    else if v == 14 { 'e' }
    else { 'f' }
}

/// The two hex digits of a byte, high nibble first.
pub open spec fn hex_byte(v: u8) -> Seq<char> {
    seq![hex_digit(v as int / 16), hex_digit(v as int % 16)]
}

/// The wire encoding of a color: `#`, then r, g, b, a as two lowercase hex
/// digits each.
pub open spec fn color_hex_chars(c: Color) -> Seq<char> {
    seq!['#'] + hex_byte(c.r) + hex_byte(c.g) + hex_byte(c.b) + hex_byte(c.a)
}

fn push_hex_digit(s: &mut String, d: u8)
    requires
        d < 16,
    ensures
        final(s)@ == old(s)@.push(hex_digit(d as int)),
{
    match d {
        0 => s.append("0"),
        1 => s.append("1"),
        2 => s.append("2"),
        3 => s.append("3"),
        4 => s.append("4"),
        5 => s.append("5"),
        6 => s.append("6"),
        7 => s.append("7"),
        8 => s.append("8"),
        9 => s.append("9"),
        10 => s.append("a"),
        11 => s.append("b"),
        12 => s.append("c"),
        13 => s.append("d"),
        14 => s.append("e"),
        _ => s.append("f"),
    }
    proof {
        reveal_strlit("0");
        reveal_strlit("1");
        reveal_strlit("2");
        reveal_strlit("3");
        reveal_strlit("4");
        reveal_strlit("5");
        reveal_strlit("6");
        reveal_strlit("7");
        reveal_strlit("8");
        reveal_strlit("9");
        reveal_strlit("a");
        reveal_strlit("b");
        reveal_strlit("c");
        reveal_strlit("d");
        reveal_strlit("e");
        reveal_strlit("f");
        assert(s@ =~= old(s)@.push(hex_digit(d as int)));
    }
}

fn push_hex_byte(s: &mut String, v: u8)
    ensures
        final(s)@ == old(s)@ + hex_byte(v),
{
    push_hex_digit(s, v / 16);
    push_hex_digit(s, v % 16);
    proof {
        assert(s@ =~= old(s)@ + hex_byte(v));
    }
}

/// Formats a color as the surface's color representation: `#rrggbbaa`.
pub fn color_hex(c: Color) -> (s: String)
    ensures
        s@ == color_hex_chars(c),
{
    let mut s = String::new();
    s.append("#");
    push_hex_byte(&mut s, c.r);
    push_hex_byte(&mut s, c.g);
    push_hex_byte(&mut s, c.b);
    push_hex_byte(&mut s, c.a);
    proof {
        reveal_strlit("#");
        assert(s@ =~= color_hex_chars(c));
    }
    s
}

} // verus!

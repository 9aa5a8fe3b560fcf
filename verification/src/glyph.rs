//! Characters of the chip's built-in font.

use vstd::prelude::*;

verus! {

/// The font code of an input byte.
///
/// A space is the blank glyph and `-` the minus sign. The letters `e`, `h`,
/// `l` and `p` select the glyphs E, H, L and P; written in upper case they
/// also light the decimal point, which is the top bit of the code. Every
/// other byte stands for itself: a digit `0` to `9`, or a code that the
/// caller has already worked out.
pub open spec fn glyph_code(b: u8) -> u8 {
    if b == 0x20 {
        0b0000_1111
    } else if b == 0x2D {
        0b0000_1010
    } else if b == 0x65 {
        0b0000_1011
    } else if b == 0x45 {
        0b1000_1011
    } else if b == 0x68 {
        0b0000_1100
    } else if b == 0x48 {
        0b1000_1100
    } else if b == 0x6C {
        0b0000_1101
    } else if b == 0x4C {
        0b1000_1101
    } else if b == 0x70 {
        0b0000_1110
    } else if b == 0x50 {
        0b1000_1110
    } else {
        b
    }
}

/// Gives for an input byte the code that the chip expects in a digit
/// register while it decodes that digit with its built-in font.
pub fn bcd_byte(b: u8) -> (code: u8)
    ensures
        code == glyph_code(b),
{
    match b {
        // space
        0x20 => 0b0000_1111,
        // `-`
        0x2D => 0b0000_1010,
        // `e`
        0x65 => 0b0000_1011,
        // `E`
        0x45 => 0b1000_1011,
        // `h`
        0x68 => 0b0000_1100,
        // `H`
        0x48 => 0b1000_1100,
        // `l`
        0x6C => 0b0000_1101,
        // `L`
        0x4C => 0b1000_1101,
        // `p`
        0x70 => 0b0000_1110,
        // `P`
        0x50 => 0b1000_1110,
        _ => b,
    }
}

} // verus!

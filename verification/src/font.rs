//! The built-in bitmap font: 16 glyphs (hexadecimal digits 0 through F) of
//! 5 bytes each, preloaded at the bottom of memory so programs can draw
//! digits with the draw-sprite instruction.

use vstd::prelude::*;

verus! {

/// The 80 font bytes in glyph order: glyph `g` occupies indices
/// `5 * g .. 5 * g + 5`.
pub open spec fn font_seq() -> Seq<u8> {
    seq![
        0xF0u8, 0x90, 0x90, 0x90, 0xF0, // 0
        0x20, 0x60, 0x20, 0x20, 0x70, // 1
        0xF0, 0x10, 0xF0, 0x80, 0xF0, // 2
        0xF0, 0x10, 0xF0, 0x10, 0xF0, // 3
        0x90, 0x90, 0xF0, 0x10, 0x10, // 4
        0xF0, 0x80, 0xF0, 0x10, 0xF0, // 5
        0xF0, 0x80, 0xF0, 0x90, 0xF0, // 6
        0xF0, 0x10, 0x20, 0x40, 0x40, // 7
        0xF0, 0x90, 0xF0, 0x90, 0xF0, // 8
        0xF0, 0x90, 0xF0, 0x10, 0xF0, // 9
        0xF0, 0x90, 0xF0, 0x90, 0x90, // A
        0xE0, 0x90, 0xE0, 0x90, 0xE0, // B
        0xF0, 0x80, 0x80, 0x80, 0xF0, // C
        0xE0, 0x90, 0x90, 0x90, 0xE0, // D
        0xF0, 0x80, 0xF0, 0x80, 0xF0, // E
        0xF0, 0x80, 0xF0, 0x80, 0x80, // F
    ]
}

/// Builds the font table as a byte vector.
pub fn font_table() -> (v: Vec<u8>)
    ensures
        v@ == font_seq(),
        v@.len() == crate::FONT_SIZE,
{
    let mut v: Vec<u8> = Vec::new();
    v.push(0xF0); v.push(0x90); v.push(0x90); v.push(0x90); v.push(0xF0); // 0
    v.push(0x20); v.push(0x60); v.push(0x20); v.push(0x20); v.push(0x70); // 1
    v.push(0xF0); v.push(0x10); v.push(0xF0); v.push(0x80); v.push(0xF0); // 2
    v.push(0xF0); v.push(0x10); v.push(0xF0); v.push(0x10); v.push(0xF0); // 3
    v.push(0x90); v.push(0x90); v.push(0xF0); v.push(0x10); v.push(0x10); // 4
    v.push(0xF0); v.push(0x80); v.push(0xF0); v.push(0x10); v.push(0xF0); // 5
    v.push(0xF0); v.push(0x80); v.push(0xF0); v.push(0x90); v.push(0xF0); // 6
    v.push(0xF0); v.push(0x10); v.push(0x20); v.push(0x40); v.push(0x40); // 7
    v.push(0xF0); v.push(0x90); v.push(0xF0); v.push(0x90); v.push(0xF0); // 8
    v.push(0xF0); v.push(0x90); v.push(0xF0); v.push(0x10); v.push(0xF0); // 9
    v.push(0xF0); v.push(0x90); v.push(0xF0); v.push(0x90); v.push(0x90); // A
    v.push(0xE0); v.push(0x90); v.push(0xE0); v.push(0x90); v.push(0xE0); // B
    v.push(0xF0); v.push(0x80); v.push(0x80); v.push(0x80); v.push(0xF0); // C
    v.push(0xE0); v.push(0x90); v.push(0x90); v.push(0x90); v.push(0xE0); // D
    v.push(0xF0); v.push(0x80); v.push(0xF0); v.push(0x80); v.push(0xF0); // E
    v.push(0xF0); v.push(0x80); v.push(0xF0); v.push(0x80); v.push(0x80); // F
    proof {
        assert(v@ =~= font_seq());
    }
    v
}

} // verus!

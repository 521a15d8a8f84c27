//! The word/address codec.
//!
//! A word is a 24-bit unsigned value carried by the three colour channels of
//! one pixel. Besides its scalar reading, a word can be read as an address:
//! the top 12 bits are an `x` raster coordinate and the low 12 bits a `y`
//! coordinate, so byte 0 holds the top 8 bits of `x`, byte 1 the low 4 bits
//! of `x` above the top 4 bits of `y`, and byte 2 the low 8 bits of `y`.

use vstd::prelude::*;

verus! {

/// Words are 24-bit values.
pub const WORD_LIMIT: u32 = 0x1000000;

/// Coordinates are 12-bit values: grids are at most 4096 pixels a side.
pub const COORD_LIMIT: u32 = 4096;

/// A word is an unsigned 24-bit value: three bytes of one pixel.
pub open spec fn word_wf(w: u32) -> bool {
    w < WORD_LIMIT
}

/// The `x` coordinate packed in a word: its top 12 bits.
pub open spec fn addr_x(w: u32) -> int {
    w as int / 4096
}

/// The `y` coordinate packed in a word: its low 12 bits.
pub open spec fn addr_y(w: u32) -> int {
    w as int % 4096
}

/// The word that packs the coordinate pair `(x, y)`, MSB-first.
pub open spec fn addr_word(x: int, y: int) -> int {
    x * 4096 + y
}

/// Splits a word into its address reading: `x` from the top 12 bits,
/// `y` from the low 12 bits.
pub fn to_address(w: u32) -> (r: (u32, u32))
    requires
        word_wf(w),
    ensures
        r.0 == addr_x(w),
        r.1 == addr_y(w),
        r.0 < COORD_LIMIT,
        r.1 < COORD_LIMIT,
{
    (w / 4096, w % 4096)
}

/// Packs the coordinate pair `(x, y)` into one word, MSB-first.
pub fn from_address(x: u32, y: u32) -> (r: u32)
    requires
        x < COORD_LIMIT,
        y < COORD_LIMIT,
    ensures
        r == addr_word(x as int, y as int),
        word_wf(r),
{
    x * 4096 + y
}

/// Packing a coordinate pair and splitting the word again returns the same
/// pair: `to_address` and `from_address` are exact inverses on `x, y < 4096`.
pub proof fn lemma_address_round_trip(x: int, y: int)
    requires
        0 <= x < 4096,
        0 <= y < 4096,
    ensures
        addr_word(x, y) < WORD_LIMIT,
        addr_x((addr_word(x, y)) as u32) == x,
        addr_y((addr_word(x, y)) as u32) == y,
{
    assert(x * 4096 + y < 0x1000000 && (x * 4096 + y) / 4096 == x && (x * 4096 + y) % 4096 == y)
        by (nonlinear_arith)
        requires
            0 <= x < 4096,
            0 <= y < 4096,
    ;
}

} // verus!

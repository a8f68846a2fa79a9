//! Cells of a series, as IEEE 754 single-precision bit patterns.

use vstd::prelude::*;

verus! {

/// The eight exponent bits of a single-precision pattern.
pub open spec fn exponent(bits: u32) -> u32 {
    (bits >> 23) & 0xff
}

/// The twenty-three fraction bits of a single-precision pattern.
pub open spec fn fraction(bits: u32) -> u32 {
    bits & 0x7f_ffff
}

/// A cell is missing when its pattern is a not-a-number: the exponent is all
/// ones and the fraction is not zero. The sign bit plays no part.
pub open spec fn is_missing(bits: u32) -> bool {
    exponent(bits) == 0xff && fraction(bits) != 0
}

/// Whether row `i` of `column` exists and holds an observation.
pub open spec fn present(column: Seq<u32>, i: int) -> bool {
    0 <= i < column.len() && !is_missing(column[i])
}

/// Tells whether a cell is missing.
pub fn missing(bits: u32) -> (m: bool)
    ensures
        m == is_missing(bits),
{
    let magnitude: u32 = bits & 0x7fff_ffff;
    assert(magnitude > 0x7f80_0000u32 <==> ((bits >> 23) & 0xff) == 0xff && (bits & 0x7f_ffff)
        != 0) by (bit_vector)
        requires
            magnitude == bits & 0x7fff_ffff,
    ;
    magnitude > 0x7f80_0000
}

} // verus!

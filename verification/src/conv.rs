//! Byte-level conversions.

use vstd::prelude::*;

verus! {

/// The four little-endian bytes of a 32-bit value, least significant
/// first.
pub open spec fn le_bytes_of(n: u32) -> Seq<u8> {
    seq![
        (n % 256) as u8,
        ((n / 256) % 256) as u8,
        ((n / 65536) % 256) as u8,
        (n / 16777216) as u8,
    ]
}

/// Converts a 32-bit value to its four little-endian bytes.
pub fn u32_to_vec(value: u32) -> (r: Vec<u8>)
    ensures
        r@ == le_bytes_of(value),
{
    let mut result: Vec<u8> = Vec::new();
    result.push((value % 256) as u8);
    let b = value / 256;
    result.push((b % 256) as u8);
    let c = b / 256;
    result.push((c % 256) as u8);
    let d = c / 256;
    result.push(d as u8);
    proof {
        assert(b / 256 == value / 65536) by (nonlinear_arith)
            requires
                b == value / 256,
        ;
        assert(c / 256 == value / 16777216) by (nonlinear_arith)
            requires
                c == value / 65536,
        ;
        assert(result@ =~= le_bytes_of(value));
    }
    result
}

} // verus!

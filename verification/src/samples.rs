//! Audio samples as the bits of 32-bit floats: sign, eight bits of exponent and
//! twenty-three bits of fraction.
use vstd::prelude::*;

verus! {

/// The exponent field of a float.
pub open spec fn exponent(bits: u32) -> int {
    (bits as int / 0x80_0000) % 0x100
}

/// Whether the bits are those of a number: an exponent of all ones stands for
/// an infinity or for no number at all.
pub open spec fn is_number(bits: u32) -> bool {
    exponent(bits) != 0xff
}

/// Whether the bits are those of a number.
pub fn is_finite(bits: u32) -> (finite: bool)
    ensures
        finite == is_number(bits),
{
    (bits / 0x80_0000) % 0x100 != 0xff
}

/// A sample, or silence where the bits are no number.
pub open spec fn sanitized(bits: u32) -> u32 {
    if is_number(bits) {
        bits
    } else {
        0
    }
}

/// A sample, or silence where the bits are no number. Hosts occasionally emit a
/// bad sample while devices reconnect; it must not poison what is measured.
pub fn sanitize(bits: u32) -> (sample: u32)
    ensures
        sample == sanitized(bits),
        is_number(sample),
{
    if is_finite(bits) {
        bits
    } else {
        0
    }
}

/// A sample that may be missing: silence where it is missing or no number.
pub fn finite_sample(bits: Option<u32>) -> (sample: u32)
    ensures
        sample == (match bits {
            Some(bits) => sanitized(bits),
            None => 0,
        }),
        is_number(sample),
{
    match bits {
        Some(bits) => sanitize(bits),
        None => 0,
    }
}

/// Cleaning a sample twice is cleaning it once.
pub proof fn sanitizing_settles(bits: u32)
    ensures
        is_number(sanitized(bits)),
        sanitized(sanitized(bits)) == sanitized(bits),
{
}

/// Numbers are the magnitudes below infinity, with either sign, and cleaning leaves
/// them as they are; everything else becomes silence.
pub proof fn numbers_lie_below_infinity(bits: u32)
    ensures
        is_number(bits) <==> bits as int % 0x8000_0000 < 0x7f80_0000,
        bits as int % 0x8000_0000 < 0x7f80_0000 ==> sanitized(bits) == bits,
        bits as int % 0x8000_0000 >= 0x7f80_0000 ==> sanitized(bits) == 0,
{
}

} // verus!

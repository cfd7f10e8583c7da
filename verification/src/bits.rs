//! The two readings of a 64-bit WebAssembly integer.
//!
//! WebAssembly integers carry no sign: an `i64` holds 64 bits, which the
//! metering pass reads as an unsigned count of points.
use vstd::prelude::*;

verus! {

/// The signed reading of the 64 bits of `bits`.
pub open spec fn signed(bits: u64) -> i64 {
    if bits <= i64::MAX as u64 {
        bits as i64
    } else {
        (bits - 0x1_0000_0000_0000_0000) as i64
    }
}

/// The unsigned reading of the 64 bits of `value`.
pub open spec fn unsigned(value: i64) -> u64 {
    if value >= 0 {
        value as u64
    } else {
        (value + 0x1_0000_0000_0000_0000) as u64
    }
}

/// Reads the bits of `bits` as a signed integer.
pub fn to_signed(bits: u64) -> (value: i64)
    ensures
        value == signed(bits),
        unsigned(value) == bits,
{
    assert(bits <= 0x7fff_ffff_ffff_ffffu64 ==> bits as i64 == bits) by (bit_vector);
    assert(bits > 0x7fff_ffff_ffff_ffffu64 ==> bits as i64 == bits - 0x1_0000_0000_0000_0000)
        by (bit_vector);
    bits as i64
}

/// Reads the bits of `value` as an unsigned integer.
pub fn to_unsigned(value: i64) -> (bits: u64)
    ensures
        bits == unsigned(value),
        signed(bits) == value,
{
    assert(value >= 0 ==> value as u64 == value) by (bit_vector);
    assert(value < 0 ==> value as u64 == value + 0x1_0000_0000_0000_0000) by (bit_vector);
    value as u64
}

/// The two readings undo each other.
pub proof fn lemma_readings_round_trip(bits: u64, value: i64)
    ensures
        unsigned(signed(bits)) == bits,
        signed(unsigned(value)) == value,
{
}

} // verus!

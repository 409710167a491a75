//! The byte width that an integer literal takes in a payload, and the
//! little-endian bytes that it contributes.

use vstd::prelude::*;

verus! {

/// The width in bytes chosen for `v`. The comparisons against each type's
/// extreme values are strict on both ends, so an extreme value itself takes
/// the next width (255 takes two bytes, -128 takes two).
pub open spec fn minimal_width(v: int) -> nat {
    if v < 0 {
        if i8::MIN < v < i8::MAX {
            1
        } else if i16::MIN < v < i16::MAX {
            2
        } else if i32::MIN < v < i32::MAX {
            4
        } else {
            8
        }
    } else {
        if v < u8::MAX {
            1
        } else if v < u16::MAX {
            2
        } else if v < u32::MAX {
            4
        } else {
            8
        }
    }
}

/// Picks the number of bytes that a literal of value `a` takes.
pub fn determine_integer_size(a: i128) -> (r: usize)
    ensures
        r == minimal_width(a as int),
{
    if a < 0 {
        if a < i8::MAX as i128 && a > i8::MIN as i128 {
            1
        } else if a < i16::MAX as i128 && a > i16::MIN as i128 {
            2
        } else if a < i32::MAX as i128 && a > i32::MIN as i128 {
            4
        } else {
            8
        }
    } else {
        if a < u8::MAX as i128 {
            1
        } else if a < u16::MAX as i128 {
            2
        } else if a < u32::MAX as i128 {
            4
        } else {
            8
        }
    }
}

/// The first `n` bytes of `v` in little-endian order.
pub open spec fn le_bytes(v: nat, n: nat) -> Seq<u8>
    decreases n,
{
    if n == 0 {
        seq![]
    } else {
        seq![(v % 256) as u8] + le_bytes(v / 256, (n - 1) as nat)
    }
}

pub open spec fn pow2_128() -> nat {
    0x1_0000_0000_0000_0000_0000_0000_0000_0000nat
}

/// The 128-bit two's complement of a value of `i128`.
pub open spec fn twos(v: int) -> nat {
    if v < 0 {
        (v + pow2_128()) as nat
    } else {
        v as nat
    }
}

/// A value of `u128` read as an `i128` with the same bits.
pub open spec fn as_signed(u: nat) -> int {
    if u <= i128::MAX {
        u as int
    } else {
        u - pow2_128()
    }
}

/// The first `n` little-endian bytes of `u`.
pub fn le_prefix(u: u128, n: usize) -> (r: Vec<u8>)
    ensures
        r@ == le_bytes(u as nat, n as nat),
{
    let mut r: Vec<u8> = Vec::new();
    let mut x: u128 = u;
    for k in 0..n
        invariant
            r@ + le_bytes(x as nat, (n - k) as nat) == le_bytes(u as nat, n as nat),
    {
        let ghost rest = le_bytes(x as nat / 256, (n - k - 1) as nat);
        assert(le_bytes(x as nat, (n - k) as nat) == seq![(x % 256) as u8] + rest);
        r.push((x % 256) as u8);
        x = x / 256;
        assert(r@ + rest == (r@.drop_last() + seq![r@.last()]) + rest);
        assert(r@.drop_last() + seq![r@.last()] == r@);
        assert(r@.drop_last() + (seq![r@.last()] + rest) == (r@.drop_last() + seq![r@.last()]) + rest);
    }
    assert(r@ + le_bytes(x as nat, 0) == r@);
    r
}

/// The value of `u128` with the same bits as `v`.
pub fn twos_exec(v: i128) -> (r: u128)
    ensures
        r as nat == twos(v as int),
{
    if v < 0 {
        let m: u128 = (-(v + 1)) as u128;
        u128::MAX - m
    } else {
        v as u128
    }
}

/// The value of `i128` with the same bits as `u`.
pub fn as_signed_exec(u: u128) -> (r: i128)
    ensures
        r as int == as_signed(u as nat),
{
    if u <= i128::MAX as u128 {
        u as i128
    } else {
        -((u128::MAX - u) as i128) - 1
    }
}

} // verus!

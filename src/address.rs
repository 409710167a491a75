//! Packing of a (main, sub) unit address into one byte: the main unit in
//! bits 3 to 7, the sub-unit in bits 0 to 2.

use vstd::prelude::*;
use vstd::string::StrSliceExecFns;
use crate::number::{from_str_radix, parse_int};

verus! {

/// The byte that carries `main` (masked to 5 bits) and `sub` (masked to 3 bits).
pub open spec fn pack_spec(main: u8, sub: u8) -> u8 {
    ((main & 0x1f) << 3u8) | (sub & 0x07)
}

/// The (main, sub) pair that a byte carries.
pub open spec fn unpack_spec(b: u8) -> (u8, u8) {
    ((b >> 3u8) & 0x1f, b & 0x07)
}

/// Splits an address byte into its main and sub fields.
pub fn split_address_byte(b: &u8) -> (r: (u8, u8))
    ensures
        r == unpack_spec(*b),
{
    let main = (*b >> 3u8) & 0x1f;
    let sub = *b & 0x07;
    (main, sub)
}

/// Joins a main and a sub field into an address byte.
pub fn into_address_byte(main: &u8, sub: &u8) -> (r: u8)
    ensures
        r == pack_spec(*main, *sub),
{
    ((*main & 0x1f) << 3u8) | (*sub & 0x07)
}

/// Unpacking a packed byte gives back both fields, masked to their widths.
pub proof fn lemma_address_round_trip(main: u8, sub: u8)
    ensures
        unpack_spec(pack_spec(main, sub)) == (main & 0x1f, sub & 0x07),
{
    assert((((((main & 0x1f) << 3u8) | (sub & 0x07)) >> 3u8) & 0x1f) == main & 0x1f)
        by (bit_vector);
    assert(((((main & 0x1f) << 3u8) | (sub & 0x07)) & 0x07) == sub & 0x07) by (bit_vector);
}

/// A byte written in hexadecimal, as `u8::from_str_radix(t, 16)` reads it.
pub open spec fn hex_byte(t: Seq<char>) -> Option<u8> {
    match parse_int(t, 16, false, 255, 0) {
        Ok(v) => Some(v as u8),
        Err(_) => None,
    }
}

/// `p` is the one place in `s` where a `/` stands.
pub open spec fn only_slash_at(s: Seq<char>, p: int) -> bool {
    &&& 0 <= p < s.len()
    &&& s[p] == '/'
    &&& forall|q: int| 0 <= q < s.len() && q != p ==> s[q] != '/'
}

/// The (main, sub) pair written as `<hex>/<hex>`: exactly one `/`, and a
/// hexadecimal byte on each side of it.
pub open spec fn address_from_text(s: Seq<char>) -> Option<(u8, u8)> {
    if exists|p: int| only_slash_at(s, p) {
        let p = choose|p: int| only_slash_at(s, p);
        match (hex_byte(s.take(p)), hex_byte(s.skip(p + 1))) {
            (Some(main), Some(sub)) => Some((main, sub)),
            _ => None,
        }
    } else {
        None
    }
}

fn hex_byte_exec(t: &str) -> (r: Option<u8>)
    ensures
        r == hex_byte(t@),
{
    match from_str_radix(t, 16, false, 255, 0) {
        Ok((_, v)) => Some(v as u8),
        Err(_) => None,
    }
}

/// Reads an address written as `<hex>/<hex>`.
pub fn address_byte_from_string(s: &str) -> (r: Option<(u8, u8)>)
    ensures
        r == address_from_text(s@),
{
    let n = s.unicode_len();
    let mut count: usize = 0;
    let mut pos: usize = 0;
    let mut pos2: usize = 0;
    for i in 0..n
        invariant
            n == s@.len(),
            count <= i,
            count == 0 ==> forall|q: int| 0 <= q < i ==> s@[q] != '/',
            count == 1 ==> only_slash_at(s@.take(i as int), pos as int),
            count >= 1 ==> pos < i && s@[pos as int] == '/',
            count >= 2 ==> pos2 < i && pos2 != pos && s@[pos2 as int] == '/',
    {
        if s.get_char(i) == '/' {
            if count == 0 {
                pos = i;
            } else if count == 1 {
                pos2 = i;
            }
            count = count + 1;
        }
    }
    assert(s@.take(n as int) == s@);
    if count != 1 {
        if count > 1 {
            assert forall|p: int| !only_slash_at(s@, p) by {
                if only_slash_at(s@, p) {
                    assert(pos as int != p ==> s@[pos as int] != '/');
                    assert(pos2 as int != p ==> s@[pos2 as int] != '/');
                }
            }
        }
        return None;
    }
    assert(only_slash_at(s@, pos as int));
    let main = hex_byte_exec(s.substring_char(0, pos));
    let sub = hex_byte_exec(s.substring_char(pos + 1, n));
    assert(s@.subrange(0, pos as int) == s@.take(pos as int));
    assert(s@.subrange(pos + 1, n as int) == s@.skip(pos + 1));
    match (main, sub) {
        (Some(m), Some(b)) => Some((m, b)),
        _ => None,
    }
}

} // verus!

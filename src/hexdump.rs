//! Writing bytes as lower-case hexadecimal text, two ASCII digits a byte.

use vstd::prelude::*;

verus! {

/// The ASCII code of a lower-case hex digit.
pub open spec fn hex_digit_byte(d: nat) -> u8 {
    if d < 10 {
        (48 + d) as u8
    } else {
        (87 + d) as u8
    }
}

/// Two ASCII hex digits for each byte, high nibble first.
pub open spec fn hexlify_spec(b: Seq<u8>) -> Seq<u8>
    decreases b.len(),
{
    if b.len() == 0 {
        seq![]
    } else {
        hexlify_spec(b.drop_last()) + seq![
            hex_digit_byte(b.last() as nat / 16),
            hex_digit_byte(b.last() as nat % 16),
        ]
    }
}

fn hex_digit_exec(d: u8) -> (r: u8)
    requires
        d < 16,
    ensures
        r == hex_digit_byte(d as nat),
{
    if d < 10 {
        48 + d
    } else {
        87 + d
    }
}

/// The bytes written as lower-case hexadecimal ASCII text.
pub fn hexlify(v: &[u8]) -> (r: Vec<u8>)
    ensures
        r@ == hexlify_spec(v@),
{
    let mut r: Vec<u8> = Vec::new();
    for i in 0..v.len()
        invariant
            r@ == hexlify_spec(v@.take(i as int)),
    {
        let ch = v[i];
        let hi = (ch & 0xf0) >> 4u8;
        let lo = ch & 0x0f;
        assert(hi == ch / 16 && lo == ch % 16) by (bit_vector)
            requires
                hi == (ch & 0xf0) >> 4u8,
                lo == ch & 0x0f,
        ;
        r.push(hex_digit_exec(hi));
        r.push(hex_digit_exec(lo));
        assert(v@.take(i + 1).drop_last() == v@.take(i as int));
        assert(r@ =~= hexlify_spec(v@.take(i + 1)));
    }
    assert(v@.take(v@.len() as int) == v@);
    r
}

} // verus!

//! Data literals of the assembly text. A literal's first character gives
//! its kind: `D` a decimal integer, `F` a single and `L` a double precision
//! float, `C` a string of characters; anything else is a hexadecimal
//! integer. Integers take the narrowest width that `minimal_width` picks.
//!
//! Floats are read by the caller: it hands in the bytes of each float
//! literal, or nothing where the literal does not read as a float. A single
//! takes exactly four bytes and a double exactly eight; other counts are
//! malformed.

use vstd::prelude::*;
use vstd::string::{StrSliceExecFns, StringExecFns};
use vstd::utf8::encode_utf8;
use crate::number::{from_str_radix, parse_int};
use crate::text::{dec, push_digits};
use crate::width::{
    as_signed, as_signed_exec, determine_integer_size, le_bytes, le_prefix, minimal_width, twos,
    twos_exec,
};

verus! {

/// `prefix`, then `tok`, then `suffix`.
pub open spec fn framed(prefix: &str, tok: Seq<char>, suffix: &str) -> Seq<char> {
    prefix@ + tok + suffix@
}

/// A new string holding `prefix`, then `tok`, then `suffix`.
pub fn framed_exec(prefix: &str, tok: &str, suffix: &str) -> (r: String)
    ensures
        r@ == framed(prefix, tok@, suffix),
{
    let mut r = String::from_str(prefix);
    r.append(tok);
    r.append(suffix);
    r
}

/// The message for a data literal that has no first character.
pub open spec fn missing_literal_message(index: nat) -> Seq<char> {
    "Failed to parse data argument "@ + dec(index) + "."@
}

/// The bytes of one data literal, or the message that rejects it. `index`
/// counts the data literals from one; `float` is what the caller read from
/// a float literal.
pub open spec fn literal_bytes(tok: Seq<char>, float: Option<Seq<u8>>, index: nat) -> Result<
    Seq<u8>,
    Seq<char>,
> {
    if tok.len() == 0 {
        Err(missing_literal_message(index))
    } else if tok[0] == 'D' {
        match parse_int(tok.drop_first(), 10, true, i128::MAX as nat, 0x8000_0000_0000_0000_0000_0000_0000_0000nat) {
            Ok(v) => Ok(le_bytes(twos(v), minimal_width(v))),
            Err(_) => Err(framed("Malformed decimal data argument: \"", tok, "\"")),
        }
    } else if tok[0] == 'F' {
        match float {
            Some(b) if b.len() == 4 => Ok(b),
            _ => Err(framed("Malformed floating-point data argument: \"", tok, "\"")),
        }
    } else if tok[0] == 'L' {
        match float {
            Some(b) if b.len() == 8 => Ok(b),
            _ => Err(framed("Malformed double-precision data argument: \"", tok, "\"")),
        }
    } else if tok[0] == 'C' {
        Ok(encode_utf8(tok.drop_first()))
    } else if encode_utf8(tok).len() > 32 {
        Err(framed("Integer argument too large for rgas: \"", tok, "\""))
    } else {
        match parse_int(tok, 16, false, u128::MAX as nat, 0) {
            Ok(u) => Ok(le_bytes(u as nat, minimal_width(as_signed(u as nat)))),
            Err(_) => Err(framed("Malformed hexadecimal data argument: \"", tok, "\"")),
        }
    }
}

/// Appends the bytes of a slice.
fn extend_bytes(data: &mut Vec<u8>, b: &[u8])
    ensures
        final(data)@ == old(data)@ + b@,
{
    let ghost start = data@;
    for i in 0..b.len()
        invariant
            data@ == start + b@.take(i as int),
    {
        data.push(b[i]);
        assert(b@.take(i + 1) == b@.take(i as int).push(b@[i as int]));
        assert(data@ =~= start + b@.take(i + 1));
    }
    assert(b@.take(b@.len() as int) == b@);
}

/// Appends the bytes of one data literal to `data`, or gives the message
/// that rejects it and leaves `data` as it was.
pub fn push_literal(data: &mut Vec<u8>, tok: &str, float: &Option<Vec<u8>>, index: usize) -> (r:
    Result<(), String>)
    ensures
        match literal_bytes(tok@, float_view(*float), index as nat) {
            Ok(b) => r is Ok && final(data)@ == old(data)@ + b,
            Err(e) => r is Err && r->Err_0@ == e && final(data)@ == old(data)@,
        },
{
    let n = tok.unicode_len();
    if n == 0 {
        let mut m = String::from_str("Failed to parse data argument ");
        push_digits(&mut m, index as u64, 10);
        m.append(".");
        return Err(m);
    }
    let first = tok.get_char(0);
    let body = tok.substring_char(1, n);
    assert(body@ == tok@.drop_first());
    if first == 'D' {
        match from_str_radix(body, 10, true, i128::MAX as u128, 0x8000_0000_0000_0000_0000_0000_0000_0000u128) {
            Ok((neg, m)) => {
                let v: i128 = if !neg {
                    m as i128
                } else if m == 0x8000_0000_0000_0000_0000_0000_0000_0000u128 {
                    i128::MIN
                } else {
                    -(m as i128)
                };
                let bytes = le_prefix(twos_exec(v), determine_integer_size(v));
                extend_bytes(data, bytes.as_slice());
                Ok(())
            },
            Err(_) => Err(framed_exec("Malformed decimal data argument: \"", tok, "\"")),
        }
    } else if first == 'F' || first == 'L' {
        let width: usize = if first == 'F' {
            4
        } else {
            8
        };
        let fits = match float {
            Some(b) => b.len() == width,
            None => false,
        };
        if fits {
            let b = float.as_ref().unwrap();
            extend_bytes(data, b.as_slice());
            Ok(())
        } else if first == 'F' {
            Err(framed_exec("Malformed floating-point data argument: \"", tok, "\""))
        } else {
            Err(framed_exec("Malformed double-precision data argument: \"", tok, "\""))
        }
    } else if first == 'C' {
        extend_bytes(data, body.as_bytes());
        Ok(())
    } else if tok.as_bytes().len() > 32 {
        Err(framed_exec("Integer argument too large for rgas: \"", tok, "\""))
    } else {
        match from_str_radix(tok, 16, false, u128::MAX, 0) {
            Ok((_, u)) => {
                let bytes = le_prefix(u, determine_integer_size(as_signed_exec(u)));
                extend_bytes(data, bytes.as_slice());
                Ok(())
            },
            Err(_) => Err(framed_exec("Malformed hexadecimal data argument: \"", tok, "\"")),
        }
    }
}

/// What the caller read from a float literal, as a sequence.
pub open spec fn float_view(f: Option<Vec<u8>>) -> Option<Seq<u8>> {
    match f {
        Some(b) => Some(b@),
        None => None,
    }
}

} // verus!

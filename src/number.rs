//! Reading integers from text in a given radix: an optional sign, then
//! digits, with the same outcomes and error kinds as the integer parsers of
//! the standard library.

use vstd::prelude::*;
use vstd::string::StrSliceExecFns;

verus! {

/// Why a text is not an integer of the wanted type.
#[derive(Clone, Copy, Debug, PartialEq, Eq, Structural)]
pub enum IntErrorKind {
    Empty,
    InvalidDigit,
    PosOverflow,
    NegOverflow,
}

/// The value of `c` as a digit in `radix`, if it is one.
pub open spec fn digit_value(c: char, radix: nat) -> Option<nat> {
    let v: int = if '0' <= c <= '9' {
        c as int - 48
    } else if 'a' <= c <= 'z' {
        c as int - 87
    } else if 'A' <= c <= 'Z' {
        c as int - 55
    } else {
        radix as int
    };
    if 0 <= v < radix {
        Some(v as nat)
    } else {
        None
    }
}

/// Reads digits left to right; the first digit that is invalid, or that
/// takes the value past `max`, decides the error.
pub open spec fn scan_digits(d: Seq<char>, radix: nat, max: nat) -> Result<nat, IntErrorKind>
    decreases d.len(),
{
    if d.len() == 0 {
        Ok(0)
    } else {
        match scan_digits(d.drop_last(), radix, max) {
            Err(e) => Err(e),
            Ok(a) => match digit_value(d.last(), radix) {
                None => Err(IntErrorKind::InvalidDigit),
                Some(x) => if a * radix + x > max {
                    Err(IntErrorKind::PosOverflow)
                } else {
                    Ok(a * radix + x)
                },
            },
        }
    }
}

/// An integer in `radix` between `-min_mag` (when `signed`) and `max`:
/// an optional `+` (or `-` when `signed`) and at least one digit.
pub open spec fn parse_int(s: Seq<char>, radix: nat, signed: bool, max: nat, min_mag: nat) -> Result<
    int,
    IntErrorKind,
> {
    if s.len() == 0 {
        Err(IntErrorKind::Empty)
    } else if (s[0] == '+' || s[0] == '-') && s.len() == 1 {
        Err(IntErrorKind::InvalidDigit)
    } else if s[0] == '+' {
        match scan_digits(s.drop_first(), radix, max) {
            Ok(v) => Ok(v as int),
            Err(e) => Err(e),
        }
    } else if s[0] == '-' && signed {
        match scan_digits(s.drop_first(), radix, min_mag) {
            Ok(v) => Ok(-v),
            Err(IntErrorKind::PosOverflow) => Err(IntErrorKind::NegOverflow),
            Err(e) => Err(e),
        }
    } else {
        match scan_digits(s, radix, max) {
            Ok(v) => Ok(v as int),
            Err(e) => Err(e),
        }
    }
}

fn digit_value_exec(c: char, radix: u32) -> (r: Option<u32>)
    requires
        2 <= radix <= 36,
    ensures
        match r {
            Some(x) => digit_value(c, radix as nat) == Some(x as nat),
            None => digit_value(c, radix as nat) is None,
        },
{
    let v: u32 = if '0' <= c && c <= '9' {
        (c as u32) - 48
    } else if 'a' <= c && c <= 'z' {
        (c as u32) - 87
    } else if 'A' <= c && c <= 'Z' {
        (c as u32) - 55
    } else {
        radix
    };
    if v < radix {
        Some(v)
    } else {
        None
    }
}

/// Reads the digits of `s` from index `from` on, as `scan_digits` does.
fn scan_digits_exec(s: &str, from: usize, radix: u32, max: u128) -> (r: Result<u128, IntErrorKind>)
    requires
        2 <= radix <= 36,
        from <= s@.len(),
    ensures
        match r {
            Ok(v) => scan_digits(s@.skip(from as int), radix as nat, max as nat) == Ok::<
                nat,
                IntErrorKind,
            >(v as nat),
            Err(e) => scan_digits(s@.skip(from as int), radix as nat, max as nat) == Err::<
                nat,
                IntErrorKind,
            >(e),
        },
{
    let n = s.unicode_len();
    let mut acc: u128 = 0;
    let mut i: usize = from;
    while i < n
        invariant
            n == s@.len(),
            from <= i <= n,
            2 <= radix <= 36,
            scan_digits(s@.subrange(from as int, i as int), radix as nat, max as nat) == Ok::<
                nat,
                IntErrorKind,
            >(acc as nat),
        decreases n - i,
    {
        let c = s.get_char(i);
        let ghost prefix = s@.subrange(from as int, i + 1);
        assert(prefix.drop_last() == s@.subrange(from as int, i as int));
        assert(prefix.last() == c);
        let mul = acc.checked_mul(radix as u128);
        match digit_value_exec(c, radix) {
            None => {
                proof {
                    assert(s@.skip(from as int).take(i - from + 1) == prefix);
                    lemma_scan_error_stays(s@.skip(from as int), (i - from + 1) as nat, radix as nat, max as nat);
                }
                return Err(IntErrorKind::InvalidDigit);
            },
            Some(x) => {
                let next = match mul {
                    Some(m) => m.checked_add(x as u128),
                    None => None,
                };
                match next {
                    Some(v) if v <= max => {
                        acc = v;
                    },
                    _ => {
                        proof {
                            assert(s@.skip(from as int).take(i - from + 1) == prefix);
                            lemma_scan_error_stays(s@.skip(from as int), (i - from + 1) as nat, radix as nat, max as nat);
                        }
                        return Err(IntErrorKind::PosOverflow);
                    },
                }
            },
        }
        i = i + 1;
    }
    assert(s@.subrange(from as int, n as int) == s@.skip(from as int));
    Ok(acc)
}

/// Once a prefix of the digits fails, the whole text fails the same way.
proof fn lemma_scan_error_stays(d: Seq<char>, k: nat, radix: nat, max: nat)
    requires
        k <= d.len(),
        scan_digits(d.take(k as int), radix, max) is Err,
    ensures
        scan_digits(d, radix, max) == scan_digits(d.take(k as int), radix, max),
    decreases d.len() - k,
{
    if k < d.len() {
        let e = d.take(k + 1 as int);
        assert(e.drop_last() == d.take(k as int));
        lemma_scan_error_stays(d, k + 1, radix, max);
    } else {
        assert(d.take(k as int) == d);
    }
}

/// Reads an integer from `s`, as `parse_int` says; an `Ok` carries the sign
/// (true for negative) and the magnitude.
pub fn from_str_radix(s: &str, radix: u32, signed: bool, max: u128, min_mag: u128) -> (r: Result<
    (bool, u128),
    IntErrorKind,
>)
    requires
        2 <= radix <= 36,
    ensures
        match r {
            Ok((neg, m)) => parse_int(s@, radix as nat, signed, max as nat, min_mag as nat) == Ok::<
                int,
                IntErrorKind,
            >(if neg {
                -(m as int)
            } else {
                m as int
            }) && (neg ==> signed && m <= min_mag) && (!neg ==> m <= max),
            Err(e) => parse_int(s@, radix as nat, signed, max as nat, min_mag as nat) == Err::<
                int,
                IntErrorKind,
            >(e),
        },
{
    let n = s.unicode_len();
    if n == 0 {
        return Err(IntErrorKind::Empty);
    }
    let c = s.get_char(0);
    if (c == '+' || c == '-') && n == 1 {
        return Err(IntErrorKind::InvalidDigit);
    }
    assert(s@.skip(1) == s@.drop_first());
    assert(s@.skip(0) == s@);
    if c == '+' {
        match scan_digits_exec(s, 1, radix, max) {
            Ok(v) => Ok((false, v)),
            Err(e) => Err(e),
        }
    } else if c == '-' && signed {
        match scan_digits_exec(s, 1, radix, min_mag) {
            Ok(v) => Ok((true, v)),
            Err(IntErrorKind::PosOverflow) => Err(IntErrorKind::NegOverflow),
            Err(e) => Err(e),
        }
    } else {
        match scan_digits_exec(s, 0, radix, max) {
            Ok(v) => Ok((false, v)),
            Err(e) => Err(e),
        }
    }
}

} // verus!

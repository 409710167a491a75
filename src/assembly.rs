//! Reading a message from its line of assembly text: target address,
//! source address, opcode mnemonic, declared length in decimal, then data
//! literals. A line whose first word starts with `#` is a comment.

use vstd::prelude::*;
use vstd::string::{StrSliceExecFns, StringExecFns};
use vstd::utf8::encode_utf8;
use crate::address::{address_byte_from_string, address_from_text};
use crate::frame::{FrameModel, UCGMessageInternal};
use crate::literal::{float_view, framed, framed_exec, literal_bytes, push_literal};
use crate::number::{from_str_radix, parse_int};
use crate::opcode::{opcode_from_text, opcode_of};
use crate::text::{dec, push_digits, split_words, upper, uppercase, views, words};

verus! {

/// The words of a line of assembly text, upper-cased: the words whose float
/// literals the caller reads before parsing the line.
pub fn asm_words(line: &String) -> (r: Vec<String>)
    ensures
        views(r@) == words(upper(line@)),
{
    let up = uppercase(line.as_str());
    split_words(up.as_str())
}

/// What the caller read from each word of a line that is a float literal.
pub open spec fn floats_view(v: Seq<Option<Vec<u8>>>) -> Seq<Option<Seq<u8>>> {
    v.map_values(|f: Option<Vec<u8>>| float_view(f))
}

/// The entry for word `i`; none past the end.
pub open spec fn float_at(floats: Seq<Option<Seq<u8>>>, i: int) -> Option<Seq<u8>> {
    if 0 <= i < floats.len() {
        floats[i]
    } else {
        None
    }
}

/// The payload of the data literals among the first `k` words (the fifth
/// word on), or the message that rejects the first bad one. Word `i` of the
/// message is word `base + i` of the caller's floats.
pub open spec fn data_upto(toks: Seq<Seq<char>>, k: nat, floats: Seq<Option<Seq<u8>>>, base: nat) -> Result<
    Seq<u8>,
    Seq<char>,
>
    decreases k,
{
    if k <= 4 {
        Ok(seq![])
    } else {
        match data_upto(toks, (k - 1) as nat, floats, base) {
            Err(e) => Err(e),
            Ok(d) => match literal_bytes(toks[k - 1], float_at(floats, base + k - 1), (k - 4) as nat) {
                Err(e) => Err(e),
                Ok(b) => Ok(d + b),
            },
        }
    }
}

/// An address word: three or four bytes long, and `<hex>/<hex>`.
pub open spec fn address_word(t: Seq<char>) -> Option<(u8, u8)> {
    if 3 <= encode_utf8(t).len() <= 4 {
        address_from_text(t)
    } else {
        None
    }
}

/// The message that the words of a line describe, or why they do not.
/// `comment` is what a comment line reports when `print_comments` is set;
/// otherwise a comment gives an empty message.
pub open spec fn parse_words(
    toks: Seq<Seq<char>>,
    comment: Seq<char>,
    print_comments: bool,
    floats: Seq<Option<Seq<u8>>>,
    base: nat,
) -> Result<FrameModel, Seq<char>> {
    if toks.len() == 0 {
        Err("Missing target address."@)
    } else if toks[0].len() > 0 && toks[0][0] == '#' {
        Err(if print_comments { comment } else { seq![] })
    } else if address_word(toks[0]) is None {
        Err(framed("Invalid target address syntax: \"", toks[0], "\"."))
    } else if toks.len() < 2 {
        Err("Missing source address."@)
    } else if address_word(toks[1]) is None {
        Err(framed("Invalid source address syntax: \"", toks[1], "\"."))
    } else if toks.len() < 3 {
        Err("Missing opcode."@)
    } else if opcode_of(toks[2]) is None {
        Err(framed("Invalid opcode: \"", toks[2], "\"."))
    } else if toks.len() < 4 {
        Err("Missing length specifier."@)
    } else {
        match parse_int(toks[3], 10, false, u16::MAX as nat, 0) {
            Err(_) => Err(framed("Invalid length specifier: \"", toks[3], "\"")),
            Ok(len) => if len >= 0x7ff {
                Err("Payload length "@ + dec(len as nat) + " too large."@)
            } else {
                match data_upto(toks, toks.len(), floats, base) {
                    Err(e) => Err(e),
                    Ok(d) => if d.len() > len {
                        Err(
                            "Data arguments of size "@ + dec(d.len()) + " exceed payload length "@
                                + dec(len as nat) + "."@,
                        )
                    } else {
                        let (target, subtarget) = address_word(toks[0])->Some_0;
                        let (source, subsource) = address_word(toks[1])->Some_0;
                        Ok(
                            FrameModel {
                                target,
                                subtarget,
                                source,
                                subsource,
                                op: opcode_of(toks[2])->Some_0,
                                len: len as u16,
                                data: d,
                            },
                        )
                    },
                }
            },
        }
    }
}

/// A payload is accepted when it is no longer than the declared length, and
/// rejected when it is longer: for words whose header reads, the words give
/// a message exactly when their data literals fit the length.
pub proof fn lemma_payload_against_length(
    toks: Seq<Seq<char>>,
    comment: Seq<char>,
    print_comments: bool,
    floats: Seq<Option<Seq<u8>>>,
    base: nat,
    len: int,
    d: Seq<u8>,
)
    requires
        toks.len() >= 4,
        !(toks[0].len() > 0 && toks[0][0] == '#'),
        address_word(toks[0]) is Some,
        address_word(toks[1]) is Some,
        opcode_of(toks[2]) is Some,
        parse_int(toks[3], 10, false, u16::MAX as nat, 0) == Ok::<int, crate::number::IntErrorKind>(len),
        len < 0x7ff,
        data_upto(toks, toks.len(), floats, base) == Ok::<Seq<u8>, Seq<char>>(d),
    ensures
        parse_words(toks, comment, print_comments, floats, base) is Ok <==> d.len() <= len,
        d.len() > len ==> parse_words(toks, comment, print_comments, floats, base) == Err::<
            FrameModel,
            Seq<char>,
        >("Data arguments of size "@ + dec(d.len()) + " exceed payload length "@ + dec(len as nat) + "."@),
{
}

/// Whatever words give a message give one whose payload is no longer than
/// its declared length, and that length is below 0x7FF.
pub proof fn lemma_parsed_payload_fits(
    toks: Seq<Seq<char>>,
    comment: Seq<char>,
    print_comments: bool,
    floats: Seq<Option<Seq<u8>>>,
    base: nat,
)
    ensures
        parse_words(toks, comment, print_comments, floats, base) is Ok ==> {
            let f = parse_words(toks, comment, print_comments, floats, base)->Ok_0;
            f.data.len() <= f.len < 0x7ff
        },
{
}

/// Once the literals up to `k` fail, all longer runs fail the same way.
proof fn lemma_data_error_stays(
    toks: Seq<Seq<char>>,
    k: nat,
    m: nat,
    floats: Seq<Option<Seq<u8>>>,
    base: nat,
)
    requires
        k <= m,
        data_upto(toks, k, floats, base) is Err,
    ensures
        data_upto(toks, m, floats, base) == data_upto(toks, k, floats, base),
    decreases m - k,
{
    if k < m {
        lemma_data_error_stays(toks, k, (m - 1) as nat, floats, base);
    }
}

fn address_word_exec(t: &str) -> (r: Option<(u8, u8)>)
    ensures
        r == address_word(t@),
{
    let bytes = t.as_bytes().len();
    if 3 <= bytes && bytes <= 4 {
        address_byte_from_string(t)
    } else {
        None
    }
}

/// The payload of the data literals of a line's words, as `data_upto` says.
fn parse_data(toks: &Vec<String>, floats: &Vec<Option<Vec<u8>>>, base: usize) -> (r: Result<
    Vec<u8>,
    String,
>)
    ensures
        match r {
            Ok(d) => data_upto(views(toks@), toks@.len(), floats_view(floats@), base as nat) == Ok::<
                Seq<u8>,
                Seq<char>,
            >(d@),
            Err(e) => data_upto(views(toks@), toks@.len(), floats_view(floats@), base as nat) == Err::<
                Seq<u8>,
                Seq<char>,
            >(e@),
        },
{
    let ghost ts = views(toks@);
    let ghost fs = floats_view(floats@);
    let n = toks.len();
    let none: Option<Vec<u8>> = None;
    let mut data: Vec<u8> = Vec::new();
    let mut k: usize = 4;
    while k < n
        invariant
            n == toks@.len(),
            4 <= k,
            k < n || k == 4 || k == n,
            ts == views(toks@),
            fs == floats_view(floats@),
            none is None,
            data_upto(ts, k as nat, fs, base as nat) == Ok::<Seq<u8>, Seq<char>>(data@),
        decreases n - k,
    {
        assert(fs.len() == floats@.len());
        let float = if base < floats.len() && k < floats.len() - base {
            assert(fs[base + k] == float_view(floats@[base + k]));
            &floats[base + k]
        } else {
            &none
        };
        assert(float_view(*float) == float_at(fs, base + k));
        assert(ts[k as int] == toks@[k as int]@);
        match push_literal(&mut data, toks[k].as_str(), float, k - 3) {
            Ok(()) => {},
            Err(e) => {
                proof {
                    lemma_data_error_stays(ts, (k + 1) as nat, n as nat, fs, base as nat);
                }
                return Err(e);
            },
        }
        k = k + 1;
    }
    if n < 4 {
        assert(data_upto(ts, n as nat, fs, base as nat) == data_upto(ts, 4, fs, base as nat));
    }
    Ok(data)
}

/// Reads a message from the words of a line, as `parse_words` says.
pub fn parse_words_exec(
    toks: &Vec<String>,
    comment: &str,
    print_comments: bool,
    floats: &Vec<Option<Vec<u8>>>,
    base: usize,
) -> (r: Result<UCGMessageInternal, String>)
    ensures
        match r {
            Ok(m) => parse_words(views(toks@), comment@, print_comments, floats_view(floats@), base as nat)
                == Ok::<FrameModel, Seq<char>>(m@),
            Err(e) => parse_words(views(toks@), comment@, print_comments, floats_view(floats@), base as nat)
                == Err::<FrameModel, Seq<char>>(e@),
        },
{
    let n = toks.len();
    if n == 0 {
        return Err(String::from_str("Missing target address."));
    }
    let t0 = toks[0].as_str();
    if t0.unicode_len() > 0 && t0.get_char(0) == '#' {
        if print_comments {
            return Err(String::from_str(comment));
        } else {
            return Err(String::new());
        }
    }
    let (target, subtarget) = match address_word_exec(t0) {
        Some(a) => a,
        None => {
            return Err(framed_exec("Invalid target address syntax: \"", t0, "\"."));
        },
    };
    if n < 2 {
        return Err(String::from_str("Missing source address."));
    }
    let t1 = toks[1].as_str();
    let (source, subsource) = match address_word_exec(t1) {
        Some(a) => a,
        None => {
            return Err(framed_exec("Invalid source address syntax: \"", t1, "\"."));
        },
    };
    if n < 3 {
        return Err(String::from_str("Missing opcode."));
    }
    let t2 = toks[2].as_str();
    let op = match opcode_from_text(t2) {
        Some(op) => op,
        None => {
            return Err(framed_exec("Invalid opcode: \"", t2, "\"."));
        },
    };
    if n < 4 {
        return Err(String::from_str("Missing length specifier."));
    }
    let t3 = toks[3].as_str();
    let len: u16 = match from_str_radix(t3, 10, false, u16::MAX as u128, 0) {
        Ok((_, v)) => v as u16,
        Err(_) => {
            return Err(framed_exec("Invalid length specifier: \"", t3, "\""));
        },
    };
    if len >= 0x7ff {
        let mut m = String::from_str("Payload length ");
        push_digits(&mut m, len as u64, 10);
        m.append(" too large.");
        return Err(m);
    }
    let data = match parse_data(toks, floats, base) {
        Ok(d) => d,
        Err(e) => {
            return Err(e);
        },
    };
    if data.len() > len as usize {
        let mut m = String::from_str("Data arguments of size ");
        push_digits(&mut m, data.len() as u64, 10);
        m.append(" exceed payload length ");
        push_digits(&mut m, len as u64, 10);
        m.append(".");
        return Err(m);
    }
    Ok(UCGMessageInternal { target, subtarget, source, subsource, op, len, data })
}

} // verus!

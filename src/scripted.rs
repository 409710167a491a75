//! The scripted message: a message with a 31-bit timestamp, relative to a
//! reference instant or absolute. On the wire the timestamp comes first as
//! a little-endian 32-bit word whose top bit is set for a relative one.

use vstd::prelude::*;
use vstd::string::{StrSliceExecFns, StringExecFns};
use crate::assembly::{floats_view, parse_words, parse_words_exec};
use crate::frame::{
    asm_text, decode_frame, encode_frame, lemma_frame_round_trip, FrameModel, UCGMessageInternal,
};
use crate::literal::{framed, framed_exec};
use crate::message::UCGMessage;
use crate::number::{from_str_radix, parse_int, IntErrorKind};
use crate::text::{dec, push_char, push_digits, split_words, upper, uppercase, views, words};
use crate::width::{le_bytes, le_prefix};

verus! {

/// One scripted message.
pub struct UCGScriptedMessageInternal {
    pub rel: bool,
    pub ts: u32,
    pub msg: UCGMessageInternal,
}

/// What a scripted message holds.
pub struct ScriptedModel {
    pub rel: bool,
    pub ts: u32,
    pub msg: FrameModel,
}

impl View for UCGScriptedMessageInternal {
    type V = ScriptedModel;

    open spec fn view(&self) -> ScriptedModel {
        ScriptedModel { rel: self.rel, ts: self.ts, msg: self.msg@ }
    }
}

/// The timestamp word: the low 31 bits of the timestamp, and the top bit
/// set exactly for a relative one.
pub open spec fn stamp_word(rel: bool, ts: u32) -> u32 {
    if rel {
        ts | 0x8000_0000
    } else {
        ts & 0x7fff_ffff
    }
}

/// The wire bytes of a scripted message.
pub open spec fn encode_scripted(s: ScriptedModel) -> Seq<u8> {
    le_bytes(stamp_word(s.rel, s.ts) as nat, 4) + encode_frame(s.msg)
}

/// The little-endian value of four bytes.
pub open spec fn le_word(b: Seq<u8>) -> nat {
    (b[0] + 0x100 * b[1] + 0x1_0000 * b[2] + 0x100_0000 * b[3]) as nat
}

/// The scripted message that wire bytes hold: none when there are fewer
/// than four bytes or the rest is no message.
pub open spec fn decode_scripted(b: Seq<u8>) -> Option<ScriptedModel> {
    if b.len() < 4 {
        None
    } else {
        match decode_frame(b.skip(4)) {
            Some(msg) => Some(
                ScriptedModel {
                    rel: le_word(b) >= 0x8000_0000,
                    ts: (le_word(b) % 0x8000_0000) as u32,
                    msg,
                },
            ),
            None => None,
        }
    }
}

/// How the standard library words each reason that a text is no integer.
pub open spec fn int_error_text(k: IntErrorKind) -> Seq<char> {
    match k {
        IntErrorKind::Empty => "cannot parse integer from empty string"@,
        IntErrorKind::InvalidDigit => "invalid digit found in string"@,
        IntErrorKind::PosOverflow => "number too large to fit in target type"@,
        IntErrorKind::NegOverflow => "number too small to fit in target type"@,
    }
}

fn int_error_text_exec(k: IntErrorKind) -> (r: &'static str)
    ensures
        r@ == int_error_text(k),
{
    match k {
        IntErrorKind::Empty => "cannot parse integer from empty string",
        IntErrorKind::InvalidDigit => "invalid digit found in string",
        IntErrorKind::PosOverflow => "number too large to fit in target type",
        IntErrorKind::NegOverflow => "number too small to fit in target type",
    }
}

/// Words joined with single spaces.
pub open spec fn joined(ws: Seq<Seq<char>>) -> Seq<char>
    decreases ws.len(),
{
    if ws.len() == 0 {
        seq![]
    } else if ws.len() == 1 {
        ws[0]
    } else {
        joined(ws.drop_last()) + seq![' '] + ws.last()
    }
}

fn joined_exec(ws: &Vec<String>) -> (r: String)
    ensures
        r@ == joined(views(ws@)),
{
    let mut r = String::new();
    for i in 0..ws.len()
        invariant
            r@ == joined(views(ws@).take(i as int)),
    {
        assert(views(ws@).take(i + 1).drop_last() == views(ws@).take(i as int));
        if i > 0 {
            push_char(&mut r, ' ');
        }
        r.append(ws[i].as_str());
        assert(r@ =~= joined(views(ws@).take(i + 1)));
    }
    assert(views(ws@).take(ws@.len() as int) == views(ws@));
    r
}

/// The scripted message that a line of assembly text describes. The first
/// word is the timestamp: `+` and a decimal of at most 31 bits for a
/// relative one; a bare
/// decimal (absolute) is recognised but not supported. The other words are
/// a message, read as `parse_words` says; a comment there reports them
/// joined with single spaces.
pub open spec fn parse_scripted_line(line: Seq<char>, print_comments: bool, floats: Seq<Option<Seq<u8>>>) -> Result<
    ScriptedModel,
    Seq<char>,
> {
    let ws = words(upper(line));
    if ws.len() == 0 {
        Err("Missing timestamp."@)
    } else {
        let t = ws[0];
        if t.len() > 0 && t[0] == '+' {
            match parse_int(t.drop_first(), 10, false, 0x7fff_ffff, 0) {
                Err(k) => Err(framed("Failed to parse relative time offset \"", t, "\": ") + int_error_text(k)),
                Ok(v) => match parse_words(ws.drop_first(), joined(ws.drop_first()), print_comments, floats, 1) {
                    Ok(msg) => Ok(ScriptedModel { rel: true, ts: v as u32, msg }),
                    Err(e) => Err(e),
                },
            }
        } else if t.len() > 0 && '0' <= t[0] <= '9' {
            Err(framed("Absolute timestamp not supported in this version of rgas: \"", t, "\""))
        } else {
            Err(framed("Not a valid timestamp: \"", t, "\".  Did you mean to use immediate mode?"))
        }
    }
}

/// A scripted message as a line of assembly text: `+<ts>s ` or `ABSOLUTE `
/// before the message's own text.
pub open spec fn scripted_asm_text(s: ScriptedModel, decimal: bool) -> Seq<char> {
    let prefix = if s.rel {
        "+"@ + dec(s.ts as nat) + "s "@
    } else {
        "ABSOLUTE "@
    };
    prefix + asm_text(s.msg, decimal)
}

impl UCGMessage for UCGScriptedMessageInternal {
    open spec fn printable(&self) -> bool {
        self.msg@.is_printable()
    }

    /// Reads a scripted message from wire bytes. What follows the timestamp
    /// is taken out of `b`, which keeps the timestamp when there is one.
    fn from_byte_vec(b: &mut Vec<u8>) -> (r: Option<Self>)
        ensures
            match r {
                Some(s) => decode_scripted(old(b)@) == Some(s@),
                None => decode_scripted(old(b)@) is None,
            },
            final(b)@ == if old(b)@.len() < 4 {
                old(b)@
            } else {
                old(b)@.take(4)
            },
    {
        if b.len() < 4 {
            return None;
        }
        let mut rest = b.split_off(4);
        let (b0, b1, b2, b3) = (b[0] as u32, b[1] as u32, b[2] as u32, b[3] as u32);
        let word: u32 = b0 + b1 * 0x100 + b2 * 0x1_0000 + b3 * 0x100_0000;
        let rel = word & 0x8000_0000 > 0;
        let ts = word & 0x7fff_ffff;
        assert(word & 0x8000_0000 > 0 <==> word >= 0x8000_0000) by (bit_vector);
        assert(word & 0x7fff_ffff == word % 0x8000_0000) by (bit_vector);
        match UCGMessageInternal::from_byte_vec(&mut rest) {
            Some(msg) => Some(Self { rel, ts, msg }),
            None => None,
        }
    }

    /// Reads a scripted message from a line of assembly text, or gives the
    /// message that rejects the line.
    fn parse_asm_line(line: &String, print_comments: bool, floats: &Vec<Option<Vec<u8>>>) -> (r:
        Result<Self, String>)
        ensures
            match r {
                Ok(s) => parse_scripted_line(line@, print_comments, floats_view(floats@)) == Ok::<
                    ScriptedModel,
                    Seq<char>,
                >(s@),
                Err(e) => parse_scripted_line(line@, print_comments, floats_view(floats@)) == Err::<
                    ScriptedModel,
                    Seq<char>,
                >(e@),
            },
            r is Ok ==> r->Ok_0.ts <= 0x7fff_ffff,
    {
        let up = uppercase(line.as_str());
        let mut ws = split_words(up.as_str());
        if ws.len() == 0 {
            return Err(String::from_str("Missing timestamp."));
        }
        let ghost all = views(ws@);
        let t = ws.remove(0);
        assert(views(ws@) =~= all.drop_first());
        let tlen = t.as_str().unicode_len();
        if tlen > 0 && t.as_str().get_char(0) == '+' {
            let body = t.as_str().substring_char(1, tlen);
            assert(body@ == t@.drop_first());
            let ts = match from_str_radix(body, 10, false, 0x7fff_ffff, 0) {
                Ok((_, v)) => v as u32,
                Err(k) => {
                    let mut m = framed_exec("Failed to parse relative time offset \"", t.as_str(), "\": ");
                    m.append(int_error_text_exec(k));
                    return Err(m);
                },
            };
            let rest = joined_exec(&ws);
            match parse_words_exec(&ws, rest.as_str(), print_comments, floats, 1) {
                Ok(msg) => Ok(Self { rel: true, ts, msg }),
                Err(e) => Err(e),
            }
        } else if tlen > 0 && '0' <= t.as_str().get_char(0) && t.as_str().get_char(0) <= '9' {
            Err(framed_exec("Absolute timestamp not supported in this version of rgas: \"", t.as_str(), "\""))
        } else {
            Err(framed_exec("Not a valid timestamp: \"", t.as_str(), "\".  Did you mean to use immediate mode?"))
        }
    }

    /// The wire bytes of this scripted message.
    fn into_byte_vec(self) -> (r: Vec<u8>)
        ensures
            r@ == encode_scripted(self@),
    {
        let word: u32 = if self.rel {
            self.ts | 0x8000_0000
        } else {
            self.ts & 0x7fff_ffff
        };
        let mut r = le_prefix(word as u128, 4);
        let mut rest = self.msg.into_byte_vec();
        r.append(&mut rest);
        r
    }

    /// This scripted message as a line of assembly text.
    fn into_asm(&self, print_decimal_data: bool) -> (r: String)
        ensures
            r@ == scripted_asm_text(self@, print_decimal_data),
    {
        let mut r = if self.rel {
            let mut p = String::from_str("+");
            push_digits(&mut p, self.ts as u64, 10);
            p.append("s ");
            p
        } else {
            String::from_str("ABSOLUTE ")
        };
        let text = self.msg.into_asm(print_decimal_data);
        r.append(text.as_str());
        assert(r@ =~= scripted_asm_text(self@, print_decimal_data));
        r
    }
}

/// Four little-endian bytes of a 32-bit word read back as that word.
proof fn lemma_le_word_of_bytes(w: u32)
    ensures
        le_bytes(w as nat, 4).len() == 4,
        le_word(le_bytes(w as nat, 4)) == w,
{
    reveal_with_fuel(le_bytes, 5);
    let b = le_bytes(w as nat, 4);
    assert(b =~= seq![
        (w % 256) as u8,
        ((w / 256) % 256) as u8,
        ((w / 256 / 256) % 256) as u8,
        ((w / 256 / 256 / 256) % 256) as u8,
    ]);
    assert((w % 256) + 0x100 * ((w / 256) % 256) + 0x1_0000 * ((w / 256 / 256) % 256) + 0x100_0000 * ((
    w / 256 / 256 / 256) % 256) == w) by (bit_vector);
}

/// The timestamp word of a timestamp of at most 31 bits carries the
/// relative flag in its top bit and the timestamp below it.
proof fn lemma_stamp_word(rel: bool, ts: u32)
    requires
        ts <= 0x7fff_ffff,
    ensures
        (stamp_word(rel, ts) >= 0x8000_0000) == rel,
        stamp_word(rel, ts) % 0x8000_0000 == ts,
{
    if rel {
        assert((ts | 0x8000_0000) >= 0x8000_0000 && (ts | 0x8000_0000) % 0x8000_0000 == ts)
            by (bit_vector)
            requires
                ts <= 0x7fff_ffff,
        ;
    } else {
        assert((ts & 0x7fff_ffff) == ts) by (bit_vector)
            requires
                ts <= 0x7fff_ffff,
        ;
    }
}

/// Decoding the encoding of a scripted message with a valid message and a
/// timestamp of at most 31 bits gives the scripted message back.
pub proof fn lemma_scripted_round_trip(s: ScriptedModel)
    requires
        s.msg.is_valid(),
        s.ts <= 0x7fff_ffff,
    ensures
        decode_scripted(encode_scripted(s)) == Some(s),
{
    let w = stamp_word(s.rel, s.ts);
    let head = le_bytes(w as nat, 4);
    let b = encode_scripted(s);
    lemma_le_word_of_bytes(w);
    lemma_stamp_word(s.rel, s.ts);
    lemma_frame_round_trip(s.msg);
    assert(b == head + encode_frame(s.msg));
    assert(b.skip(4) =~= encode_frame(s.msg));
    assert(b.take(4) =~= head);
    assert(b[0] == head[0] && b[1] == head[1] && b[2] == head[2] && b[3] == head[3]);
    assert(le_word(b) == le_word(head));
    assert(le_word(b) == w);
    assert(decode_frame(b.skip(4)) == Some(s.msg));
}

} // verus!

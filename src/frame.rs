//! The immediate message: a 4-byte header (two address bytes, the opcode
//! with the high bits of the length, the low byte of the length) followed
//! by the payload.

use vstd::prelude::*;
use vstd::string::StringExecFns;
use crate::address::{
    into_address_byte, lemma_address_round_trip, pack_spec, split_address_byte, unpack_spec,
};
use crate::assembly::{floats_view, parse_words, parse_words_exec};
use crate::message::UCGMessage;
use crate::opcode::{mnemonic, opcode_from_text, opcode_of, text_of, MAX_OPCODE};
use crate::text::{
    dec, hex, lemma_first_word, push_char, push_digits, push_padded, split_words, upper, uppercase,
    words, zero_pad,
};

verus! {

/// One immediate message.
pub struct UCGMessageInternal {
    pub target: u8,
    pub subtarget: u8,
    pub source: u8,
    pub subsource: u8,
    pub op: u8,
    pub len: u16,
    pub data: Vec<u8>,
}

/// What a message holds, with the payload as a sequence.
pub struct FrameModel {
    pub target: u8,
    pub subtarget: u8,
    pub source: u8,
    pub subsource: u8,
    pub op: u8,
    pub len: u16,
    pub data: Seq<u8>,
}

impl View for UCGMessageInternal {
    type V = FrameModel;

    open spec fn view(&self) -> FrameModel {
        FrameModel {
            target: self.target,
            subtarget: self.subtarget,
            source: self.source,
            subsource: self.subsource,
            op: self.op,
            len: self.len,
            data: self.data@,
        }
    }
}

impl FrameModel {
    /// Every field fits its place in the header, the length is below
    /// 0x7FF, and the payload is no longer than the length says.
    pub open spec fn is_valid(self) -> bool {
        &&& self.target <= 0x1f
        &&& self.subtarget <= 0x07
        &&& self.source <= 0x1f
        &&& self.subsource <= 0x07
        &&& self.op <= MAX_OPCODE
        &&& self.data.len() <= self.len <= 0x7fe
    }
}

/// The header byte that carries the top three bits of the length.
pub open spec fn len_high(len: u16) -> u8 {
    ((len >> 8u16) & 0x07) as u8
}

/// The header byte that carries the low eight bits of the length.
pub open spec fn len_low(len: u16) -> u8 {
    (len & 0xff) as u8
}

/// The wire bytes of a message.
pub open spec fn encode_frame(f: FrameModel) -> Seq<u8> {
    seq![
        pack_spec(f.target, f.subtarget),
        pack_spec(f.source, f.subsource),
        pack_spec(f.op, len_high(f.len)),
        len_low(f.len),
    ] + f.data
}

/// The message that wire bytes hold: none when there are fewer than four
/// bytes or the opcode is past `MAX_OPCODE`. All bytes after the header
/// are the payload, whatever the length says.
pub open spec fn decode_frame(b: Seq<u8>) -> Option<FrameModel> {
    if b.len() < 4 {
        None
    } else {
        let (target, subtarget) = unpack_spec(b[0]);
        let (source, subsource) = unpack_spec(b[1]);
        let (op, high) = unpack_spec(b[2]);
        if op > MAX_OPCODE {
            None
        } else {
            Some(
                FrameModel {
                    target,
                    subtarget,
                    source,
                    subsource,
                    op,
                    len: (b[3] + 256 * high) as u16,
                    data: b.skip(4),
                },
            )
        }
    }
}

/// The header as text: `TT/S SS/S MNEM LLL`, addresses in upper-case hex
/// and the length in decimal, each padded with zeros.
pub open spec fn header_text(f: FrameModel) -> Seq<char> {
    zero_pad(hex(f.target as nat), 2) + seq!['/'] + zero_pad(hex(f.subtarget as nat), 1) + seq![' ']
        + zero_pad(hex(f.source as nat), 2) + seq!['/'] + zero_pad(hex(f.subsource as nat), 1)
        + seq![' '] + mnemonic(f.op) + seq![' '] + zero_pad(dec(f.len as nat), 3)
}

/// One payload byte: two hex digits, or `D` and its decimal value.
pub open spec fn byte_item(v: nat, decimal: bool) -> Seq<char> {
    if decimal {
        seq!['D'] + dec(v)
    } else {
        zero_pad(hex(v), 2)
    }
}

/// One 16-bit payload word: four hex digits, or `D` and its decimal value.
pub open spec fn word_item(v: nat, decimal: bool) -> Seq<char> {
    if decimal {
        seq!['D'] + dec(v)
    } else {
        zero_pad(hex(v), 4)
    }
}

/// The little-endian word of the bytes at `2k + 1` and `2k + 2`.
pub open spec fn word_at(d: Seq<u8>, k: int) -> nat {
    (d[2 * k + 1] + 256 * d[2 * k + 2]) as nat
}

/// The first `k` words after the first byte, each after a space.
pub open spec fn words_text(d: Seq<u8>, k: nat, decimal: bool) -> Seq<char>
    decreases k,
{
    if k == 0 {
        seq![]
    } else {
        words_text(d, (k - 1) as nat, decimal) + seq![' '] + word_item(word_at(d, k - 1), decimal)
    }
}

/// The bytes from index 1 up to `k`, each after a space.
pub open spec fn bytes_text(d: Seq<u8>, k: nat, decimal: bool) -> Seq<char>
    decreases k,
{
    if k <= 1 {
        seq![]
    } else {
        bytes_text(d, (k - 1) as nat, decimal) + seq![' '] + byte_item(d[k - 1] as nat, decimal)
    }
}

/// The payload as text. Nothing when the length is zero or no payload byte
/// is there; otherwise the first byte alone in hex, then the rest as words
/// when the length less one is even, else byte by byte.
pub open spec fn data_text(f: FrameModel, decimal: bool) -> Seq<char> {
    if f.len == 0 || f.data.len() == 0 {
        seq![]
    } else {
        seq![' '] + zero_pad(hex(f.data[0] as nat), 2) + if (f.len - 1) % 2 == 0 {
            words_text(f.data, ((f.data.len() - 1) / 2) as nat, decimal)
        } else {
            bytes_text(f.data, f.data.len(), decimal)
        }
    }
}

/// A message as one line of assembly text.
pub open spec fn asm_text(f: FrameModel, decimal: bool) -> Seq<char> {
    header_text(f) + data_text(f, decimal)
}

impl FrameModel {
    /// The message can be written as text: its opcode has a mnemonic.
    pub open spec fn is_printable(self) -> bool {
        self.op <= MAX_OPCODE
    }
}

/// The message that a line of assembly text describes: the line is
/// upper-cased, split into words, and the words read as `parse_words` says;
/// a comment line reports the upper-cased line.
pub open spec fn parse_line(line: Seq<char>, print_comments: bool, floats: Seq<Option<Seq<u8>>>) -> Result<
    FrameModel,
    Seq<char>,
> {
    parse_words(words(upper(line)), upper(line), print_comments, floats, 0)
}

impl UCGMessage for UCGMessageInternal {
    open spec fn printable(&self) -> bool {
        self@.is_printable()
    }

    /// Reads a message from wire bytes. The payload is taken out of `b`,
    /// which keeps the header when there is one.
    fn from_byte_vec(b: &mut Vec<u8>) -> (r: Option<Self>)
        ensures
            match r {
                Some(m) => decode_frame(old(b)@) == Some(m@),
                None => decode_frame(old(b)@) is None,
            },
            final(b)@ == if old(b)@.len() < 4 {
                old(b)@
            } else {
                old(b)@.take(4)
            },
    {
        if b.len() < 4 {
            return None;
        }
        let data = b.split_off(4);
        let (target, subtarget) = split_address_byte(&b[0]);
        let (source, subsource) = split_address_byte(&b[1]);
        let (op, high) = split_address_byte(&b[2]);
        let low = b[3];
        let b2 = b[2];
        assert(b2 & 0x07 <= 7) by (bit_vector);
        assert((high as u16) << 8u16 <= 0x700) by (bit_vector)
            requires
                high <= 7,
        ;
        let len: u16 = (low as u16) + ((high as u16) << 8u16);
        assert(((low as u16) + ((high as u16) << 8u16)) as int == low + 256 * high) by (bit_vector)
            requires
                high <= 7,
        ;
        if op > MAX_OPCODE {
            None
        } else {
            Some(Self { target, subtarget, source, subsource, op, len, data })
        }
    }

    /// The wire bytes of this message.
    fn into_byte_vec(self) -> (r: Vec<u8>)
        ensures
            r@ == encode_frame(self@),
    {
        let mut data = self.data;
        let mut r: Vec<u8> = Vec::new();
        r.push(into_address_byte(&self.target, &self.subtarget));
        r.push(into_address_byte(&self.source, &self.subsource));
        let high: u8 = ((self.len >> 8u16) & 0x07) as u8;
        r.push(into_address_byte(&self.op, &high));
        r.push((self.len & 0xff) as u8);
        r.append(&mut data);
        assert(r@ =~= encode_frame(self@));
        r
    }

    /// Reads a message from a line of assembly text, or gives the message
    /// that rejects the line (empty for a comment that is not printed).
    fn parse_asm_line(line: &String, print_comments: bool, floats: &Vec<Option<Vec<u8>>>) -> (r:
        Result<Self, String>)
        ensures
            match r {
                Ok(m) => parse_line(line@, print_comments, floats_view(floats@)) == Ok::<
                    FrameModel,
                    Seq<char>,
                >(m@),
                Err(e) => parse_line(line@, print_comments, floats_view(floats@)) == Err::<
                    FrameModel,
                    Seq<char>,
                >(e@),
            },
    {
        let up = uppercase(line.as_str());
        let toks = split_words(up.as_str());
        parse_words_exec(&toks, up.as_str(), print_comments, floats, 0)
    }

    /// The message as a line of assembly text.
    fn into_asm(&self, print_decimal_data: bool) -> (r: String)
        ensures
            r@ == asm_text(self@, print_decimal_data),
    {
        let mut r = String::new();
        push_padded(&mut r, self.target as u64, 16, 2);
        push_char(&mut r, '/');
        push_padded(&mut r, self.subtarget as u64, 16, 1);
        push_char(&mut r, ' ');
        push_padded(&mut r, self.source as u64, 16, 2);
        push_char(&mut r, '/');
        push_padded(&mut r, self.subsource as u64, 16, 1);
        push_char(&mut r, ' ');
        r.append(text_of(self.op));
        push_char(&mut r, ' ');
        push_padded(&mut r, self.len as u64, 10, 3);
        assert(r@ =~= header_text(self@));
        if self.len == 0 || self.data.len() == 0 {
            assert(r@ =~= asm_text(self@, print_decimal_data));
            return r;
        }
        let ghost head = r@;
        push_char(&mut r, ' ');
        push_padded(&mut r, self.data[0] as u64, 16, 2);
        let ghost first = r@;
        assert(first =~= head + seq![' '] + zero_pad(hex(self.data@[0] as nat), 2));
        let d = &self.data;
        if (self.len - 1) % 2 == 0 {
            let count = (d.len() - 1) / 2;
            for i in 0..count
                invariant
                    count == (d@.len() - 1) / 2,
                    d@.len() >= 1,
                    r@ == first + words_text(d@, i as nat, print_decimal_data),
            {
                assert(2 * i + 2 < d@.len()) by (nonlinear_arith)
                    requires
                        i < count,
                        count == (d@.len() - 1) / 2,
                        d@.len() >= 1,
                ;
                assert(d@.len() == d.len());
                let lo = d[2 * i + 1];
                let hi = d[2 * i + 2];
                let word: u16 = (lo as u16) + (hi as u16) * 256;
                push_char(&mut r, ' ');
                if print_decimal_data {
                    push_char(&mut r, 'D');
                    push_digits(&mut r, word as u64, 10);
                } else {
                    push_padded(&mut r, word as u64, 16, 4);
                }
                assert(r@ =~= first + words_text(d@, (i + 1) as nat, print_decimal_data));
            }
        } else {
            for i in 1..d.len()
                invariant
                    d@.len() >= 1,
                    r@ == first + bytes_text(d@, i as nat, print_decimal_data),
            {
                push_char(&mut r, ' ');
                if print_decimal_data {
                    push_char(&mut r, 'D');
                    push_digits(&mut r, d[i] as u64, 10);
                } else {
                    push_padded(&mut r, d[i] as u64, 16, 2);
                }
                assert(r@ =~= first + bytes_text(d@, (i + 1) as nat, print_decimal_data));
            }
        }
        assert(r@ =~= asm_text(self@, print_decimal_data));
        r
    }
}

impl UCGMessageInternal {
    /// The mnemonic of this message's opcode.
    pub fn op_to_text(&self) -> (r: String)
        requires
            self.op <= MAX_OPCODE,
        ensures
            r@ == mnemonic(self.op),
    {
        String::from_str(text_of(self.op))
    }

    /// Sets the opcode from its mnemonic; false, with nothing changed, when
    /// `t` is no mnemonic.
    pub fn set_op_from_text(&mut self, t: &str) -> (r: bool)
        ensures
            r == opcode_of(t@) is Some,
            final(self)@ == (FrameModel {
                op: if r {
                    opcode_of(t@)->Some_0
                } else {
                    old(self).op
                },
                ..old(self)@
            }),
    {
        match opcode_from_text(t) {
            Some(op) => {
                self.op = op;
                true
            },
            None => false,
        }
    }
}

/// Decoding the encoding of a valid message gives the message back.
pub proof fn lemma_frame_round_trip(f: FrameModel)
    requires
        f.is_valid(),
    ensures
        decode_frame(encode_frame(f)) == Some(f),
{
    let b = encode_frame(f);
    lemma_address_round_trip(f.target, f.subtarget);
    lemma_address_round_trip(f.source, f.subsource);
    lemma_address_round_trip(f.op, len_high(f.len));
    let (t, st, s, ss, op, len) = (f.target, f.subtarget, f.source, f.subsource, f.op, f.len);
    assert(t & 0x1f == t && st & 0x07 == st) by (bit_vector)
        requires
            t <= 0x1f,
            st <= 0x07,
    ;
    assert(s & 0x1f == s && ss & 0x07 == ss) by (bit_vector)
        requires
            s <= 0x1f,
            ss <= 0x07,
    ;
    assert(op & 0x1f == op) by (bit_vector)
        requires
            op <= 18,
    ;
    assert((len & 0xff) as u8 + 256 * ((((len >> 8u16) & 0x07) as u8) & 0x07) == len) by (bit_vector)
        requires
            len <= 0x7fe,
    ;
    assert(b.skip(4) =~= f.data);
}

/// A header whose opcode field is `MAX_OPCODE` decodes; one whose opcode
/// field is past it does not.
pub proof fn lemma_opcode_boundary(b: Seq<u8>)
    requires
        b.len() >= 4,
    ensures
        unpack_spec(b[2]).0 == MAX_OPCODE ==> decode_frame(b) is Some,
        unpack_spec(b[2]).0 == MAX_OPCODE + 1 ==> decode_frame(b) is None,
{
}

/// A line that starts with `#` is a comment: it gives the empty message,
/// or the upper-cased line when comments are printed.
pub proof fn lemma_comment_line(line: Seq<char>, print_comments: bool, floats: Seq<Option<Seq<u8>>>)
    requires
        line.len() > 0,
        line[0] == '#',
    ensures
        parse_line(line, print_comments, floats) == Err::<FrameModel, Seq<char>>(
            if print_comments {
                upper(line)
            } else {
                seq![]
            },
        ),
{
    lemma_first_word(upper(line));
}

} // verus!

//! The opcode table: each opcode from 0 to `MAX_OPCODE` and its mnemonic.

use vstd::prelude::*;
use vstd::string::StrSliceExecFns;

verus! {

/// The largest opcode that a frame may carry.
pub const MAX_OPCODE: u8 = 18;

/// The mnemonic of `op`; empty past `MAX_OPCODE`.
pub open spec fn mnemonic(op: u8) -> Seq<char> {
    match op {
        0 => "NOP"@,
        1 => "RQRY"@,
        2 => "SQST"@,
        3 => "SVAL"@,
        4 => "RTYP"@,
        5 => "RVAL"@,
        6 => "RWRT"@,
        7 => "RRTC"@,
        8 => "SRUN"@,
        9 => "STAT"@,
        10 => "STOP"@,
        11 => "SRET"@,
        12 => "MACK"@,
        13 => "OPOK"@,
        14 => "FAIL"@,
        15 => "NSUP"@,
        16 => "DERR"@,
        17 => "DDIE"@,
        18 => "REDY"@,
        _ => seq![],
    }
}

/// The first opcode from `from` on whose mnemonic is `t`.
pub open spec fn find_opcode(t: Seq<char>, from: nat) -> Option<u8>
    decreases 19 - from,
{
    if from > MAX_OPCODE {
        None
    } else if mnemonic(from as u8) == t {
        Some(from as u8)
    } else {
        find_opcode(t, from + 1)
    }
}

/// The opcode whose mnemonic is exactly `t`, if any.
pub open spec fn opcode_of(t: Seq<char>) -> Option<u8> {
    find_opcode(t, 0)
}

/// The mnemonic of a valid opcode.
pub fn text_of(op: u8) -> (r: &'static str)
    requires
        op <= MAX_OPCODE,
    ensures
        r@ == mnemonic(op),
{
    match op {
        0 => "NOP",
        1 => "RQRY",
        2 => "SQST",
        3 => "SVAL",
        4 => "RTYP",
        5 => "RVAL",
        6 => "RWRT",
        7 => "RRTC",
        8 => "SRUN",
        9 => "STAT",
        10 => "STOP",
        11 => "SRET",
        12 => "MACK",
        13 => "OPOK",
        14 => "FAIL",
        15 => "NSUP",
        16 => "DERR",
        17 => "DDIE",
        _ => "REDY",
    }
}

/// Whether two texts hold the same characters.
pub fn same_text(a: &str, b: &str) -> (r: bool)
    ensures
        r == (a@ == b@),
{
    let n = a.unicode_len();
    if n != b.unicode_len() {
        return false;
    }
    for i in 0..n
        invariant
            n == a@.len(),
            n == b@.len(),
            a@.take(i as int) == b@.take(i as int),
    {
        if a.get_char(i) != b.get_char(i) {
            assert(a@[i as int] != b@[i as int]);
            return false;
        }
        assert(a@.take(i + 1) == a@.take(i as int).push(a@[i as int]));
        assert(b@.take(i + 1) == b@.take(i as int).push(b@[i as int]));
    }
    assert(a@.take(n as int) == a@);
    assert(b@.take(n as int) == b@);
    true
}

/// Looks up the opcode of a mnemonic; the match is exact and case-sensitive.
pub fn opcode_from_text(t: &str) -> (r: Option<u8>)
    ensures
        r == opcode_of(t@),
{
    let mut op: u8 = 0;
    while op <= MAX_OPCODE
        invariant
            op <= MAX_OPCODE + 1,
            opcode_of(t@) == find_opcode(t@, op as nat),
        decreases 19 - op,
    {
        if same_text(t, text_of(op)) {
            return Some(op);
        }
        op = op + 1;
    }
    None
}

/// Looking up a valid opcode's mnemonic gives back that opcode.
pub proof fn lemma_opcode_of_mnemonic(op: u8)
    requires
        op <= MAX_OPCODE,
    ensures
        opcode_of(mnemonic(op)) == Some(op),
{
    reveal_strlit("NOP");
    reveal_strlit("RQRY");
    reveal_strlit("SQST");
    reveal_strlit("SVAL");
    reveal_strlit("RTYP");
    reveal_strlit("RVAL");
    reveal_strlit("RWRT");
    reveal_strlit("RRTC");
    reveal_strlit("SRUN");
    reveal_strlit("STAT");
    reveal_strlit("STOP");
    reveal_strlit("SRET");
    reveal_strlit("MACK");
    reveal_strlit("OPOK");
    reveal_strlit("FAIL");
    reveal_strlit("NSUP");
    reveal_strlit("DERR");
    reveal_strlit("DDIE");
    reveal_strlit("REDY");
    assert forall|j: u8| j < op implies mnemonic(j) != mnemonic(op) by {
        assert(mnemonic(j).len() != mnemonic(op).len() || mnemonic(j)[0] != mnemonic(op)[0]
            || mnemonic(j)[1] != mnemonic(op)[1] || mnemonic(j)[2] != mnemonic(op)[2]
            || mnemonic(j)[3] != mnemonic(op)[3]);
    }
    lemma_find_opcode(mnemonic(op), 0, op);
}

proof fn lemma_find_opcode(t: Seq<char>, from: nat, op: u8)
    requires
        from <= op <= MAX_OPCODE,
        mnemonic(op) == t,
        forall|j: u8| from <= j < op ==> mnemonic(j) != t,
    ensures
        find_opcode(t, from) == Some(op),
    decreases op - from,
{
    if from < op {
        lemma_find_opcode(t, from + 1, op);
    }
}

} // verus!

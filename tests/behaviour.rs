use rgas::{
    address_byte_from_string, asm_words, determine_integer_size, into_address_byte,
    split_address_byte, UCGMessage, UCGMessageInternal, UCGScriptedMessageInternal, MAX_OPCODE,
};

/// The bytes of each float literal of a line, as the command-line tools
/// read them.
fn float_bytes(line: &str) -> Vec<Option<Vec<u8>>> {
    asm_words(&String::from(line))
        .iter()
        .map(|w| {
            let mut cs = w.chars();
            match cs.next() {
                Some('F') => cs.as_str().parse::<f32>().ok().map(|f| f.to_le_bytes().to_vec()),
                Some('L') => cs.as_str().parse::<f64>().ok().map(|f| f.to_le_bytes().to_vec()),
                _ => None,
            }
        })
        .collect()
}

fn parse(line: &str) -> Result<UCGMessageInternal, String> {
    UCGMessageInternal::parse_asm_line(&String::from(line), false, &float_bytes(line))
}

fn parse_err(line: &str) -> String {
    match parse(line) {
        Ok(_) => panic!("accepted {}", line),
        Err(e) => e,
    }
}

fn parse_data(line: &str) -> Vec<u8> {
    match parse(line) {
        Ok(m) => m.data,
        Err(e) => panic!("{}", e),
    }
}

fn scripted(line: &str, comments: bool) -> Result<UCGScriptedMessageInternal, String> {
    UCGScriptedMessageInternal::parse_asm_line(&String::from(line), comments, &float_bytes(line))
}

fn frame(op: u8, len: u16, data: Vec<u8>) -> UCGMessageInternal {
    UCGMessageInternal { target: 3, subtarget: 4, source: 0x1f, subsource: 7, op, len, data }
}

#[test]
fn address_byte_round_trip_all() {
    for m in 0..=255u8 {
        for s in 0..=255u8 {
            let b = into_address_byte(&m, &s);
            assert_eq!(split_address_byte(&b), (m & 0x1f, s & 0x07));
        }
    }
    assert_eq!(into_address_byte(&3, &4), 0x1c);
    assert_eq!(into_address_byte(&0xff, &0xff), 0xff);
}

#[test]
fn address_text() {
    assert_eq!(address_byte_from_string("1F/7"), Some((0x1f, 7)));
    assert_eq!(address_byte_from_string("1f/a"), Some((0x1f, 0xa)));
    assert_eq!(address_byte_from_string("100/1"), None);
    assert_eq!(address_byte_from_string("1/2/3"), None);
    assert_eq!(address_byte_from_string("12"), None);
    assert_eq!(address_byte_from_string("/1"), None);
    assert_eq!(address_byte_from_string("G/1"), None);
}

#[test]
fn opcode_boundary_on_decode() {
    let mut at_max = vec![0x1c, 0xff, MAX_OPCODE << 3, 0x00];
    assert!(UCGMessageInternal::from_byte_vec(&mut at_max).is_some());
    let mut past_max = vec![0x1c, 0xff, (MAX_OPCODE + 1) << 3, 0x00];
    assert!(UCGMessageInternal::from_byte_vec(&mut past_max).is_none());
    assert_eq!(past_max, vec![0x1c, 0xff, (MAX_OPCODE + 1) << 3, 0x00]);
}

#[test]
fn decode_needs_a_header() {
    let mut short = vec![0x1c, 0xff, 0x08];
    assert!(UCGMessageInternal::from_byte_vec(&mut short).is_none());
    assert_eq!(short, vec![0x1c, 0xff, 0x08]);
}

#[test]
fn decode_keeps_header_and_takes_all_data() {
    let mut b = vec![0x1c, 0xff, 0x08, 0x01, 1, 2, 3];
    let m = UCGMessageInternal::from_byte_vec(&mut b).unwrap();
    assert_eq!(b, vec![0x1c, 0xff, 0x08, 0x01]);
    assert_eq!(m.len, 1);
    assert_eq!(m.data, vec![1, 2, 3]);
}

#[test]
fn integer_widths() {
    assert_eq!(determine_integer_size(0), 1);
    assert_eq!(determine_integer_size(254), 1);
    assert_eq!(determine_integer_size(255), 2);
    assert_eq!(determine_integer_size(256), 2);
    assert_eq!(determine_integer_size(65534), 2);
    assert_eq!(determine_integer_size(65535), 4);
    assert_eq!(determine_integer_size(4294967294), 4);
    assert_eq!(determine_integer_size(4294967295), 8);
    assert_eq!(determine_integer_size(-1), 1);
    assert_eq!(determine_integer_size(-127), 1);
    assert_eq!(determine_integer_size(-128), 2);
    assert_eq!(determine_integer_size(-32767), 2);
    assert_eq!(determine_integer_size(-32768), 4);
    assert_eq!(determine_integer_size(-2147483648), 8);
    assert_eq!(determine_integer_size(i128::MIN), 8);
}

#[test]
fn encode_immediate_example() {
    let f = frame(1, 2, vec![1, 2]);
    assert_eq!(f.into_asm(false), "03/4 1F/7 RQRY 002 01 02");
    assert_eq!(f.op_to_text(), "RQRY");
    assert_eq!(f.into_byte_vec(), vec![0x1c, 0xff, 0x08, 0x02, 1, 2]);
}

#[test]
fn decimal_grouping() {
    let f = frame(1, 3, vec![1, 0x39, 0x30]);
    assert_eq!(f.into_asm(true), "03/4 1F/7 RQRY 003 01 D12345");
    let g = frame(1, 4, vec![1, 0x39, 0x30, 7]);
    assert_eq!(g.into_asm(true), "03/4 1F/7 RQRY 004 01 D57 D48 D7");
    assert_eq!(g.into_asm(false), "03/4 1F/7 RQRY 004 01 39 30 07");
}

#[test]
fn text_without_data_or_with_short_data() {
    assert_eq!(frame(0, 0, vec![]).into_asm(false), "03/4 1F/7 NOP 000");
    assert_eq!(frame(18, 5, vec![0xab]).into_asm(false), "03/4 1F/7 REDY 005 AB");
    let wide = UCGMessageInternal { target: 0, subtarget: 0x1f, source: 0xa, subsource: 0, op: 9, len: 1234, data: vec![0, 1, 2, 3, 4] };
    assert_eq!(wide.into_asm(false), "00/1F 0A/0 STAT 1234 00 01 02 03 04");
}

#[test]
fn text_parse_example() {
    let m = parse("03/4 1F/7 RVAL 003 01 D10000").unwrap();
    assert_eq!(m.op, 5);
    assert_eq!(m.len, 3);
    assert_eq!(m.data, vec![1, 0x10, 0x27]);
}

#[test]
fn lower_case_text_is_read() {
    let m = parse("  03/4\t1f/7   rval 2 ab  ").unwrap();
    assert_eq!((m.target, m.subtarget, m.source, m.subsource), (3, 4, 0x1f, 7));
    assert_eq!(m.op, 5);
    assert_eq!(m.data, vec![0xab]);
}

#[test]
fn comment_lines() {
    let line = String::from("# a note");
    let skipped = UCGMessageInternal::parse_asm_line(&line, false, &vec![]);
    assert_eq!(skipped.err(), Some(String::new()));
    let shown = UCGMessageInternal::parse_asm_line(&line, true, &vec![]);
    assert_eq!(shown.err(), Some(String::from("# A NOTE")));
    let indented = UCGMessageInternal::parse_asm_line(&String::from("  #x y"), true, &vec![]);
    assert_eq!(indented.err(), Some(String::from("  #X Y")));
}

#[test]
fn over_length_data() {
    assert_eq!(
        parse_err("03/4 1F/7 RQRY 001 01 02"),
        "Data arguments of size 2 exceed payload length 1."
    );
    let fewer = parse("03/4 1F/7 RQRY 005 01").unwrap();
    assert_eq!(fewer.len, 5);
    assert_eq!(fewer.data, vec![1]);
}

#[test]
fn header_errors() {
    assert_eq!(parse_err(""), "Missing target address.");
    assert_eq!(parse_err("003/4 1F/7 RQRY 001"), "Invalid target address syntax: \"003/4\".");
    assert_eq!(parse_err("0G/4 1F/7 RQRY 001"), "Invalid target address syntax: \"0G/4\".");
    assert_eq!(parse_err("03/4"), "Missing source address.");
    assert_eq!(parse_err("03/4 1F7 RQRY 001"), "Invalid source address syntax: \"1F7\".");
    assert_eq!(parse_err("03/4 1F/7"), "Missing opcode.");
    assert_eq!(parse_err("03/4 1F/7 bogus 001"), "Invalid opcode: \"BOGUS\".");
    assert_eq!(parse_err("03/4 1F/7 RQRY"), "Missing length specifier.");
    assert_eq!(parse_err("03/4 1F/7 RQRY 0x1"), "Invalid length specifier: \"0X1\"");
    assert_eq!(parse_err("03/4 1F/7 RQRY 2047"), "Payload length 2047 too large.");
    assert!(parse("03/4 1F/7 RQRY 2046").is_ok());
}

#[test]
fn literal_kinds() {
    assert_eq!(parse_data("03/4 1F/7 SVAL 9 D-1"), vec![0xff]);
    assert_eq!(parse_data("03/4 1F/7 SVAL 9 D-129"), vec![0x7f, 0xff]);
    assert_eq!(parse_data("03/4 1F/7 SVAL 9 D255"), vec![0xff, 0x00]);
    assert_eq!(parse_data("03/4 1F/7 SVAL 9 0FFFFFFFF"), vec![0xff, 0xff, 0xff, 0xff, 0, 0, 0, 0]);
    assert_eq!(parse_data("03/4 1F/7 SVAL 9 80000000000000000000000000000001"), vec![1, 0, 0, 0, 0, 0, 0, 0]);
    assert_eq!(parse_data("03/4 1F/7 SVAL 9 Finf"), f32::INFINITY.to_le_bytes().to_vec());
    assert_eq!(parse_data("03/4 1F/7 SVAL 9 Cab"), vec![0x41, 0x42]);
    assert_eq!(parse_data("03/4 1F/7 SVAL 9 C\u{e9}"), vec![0xc3, 0xa9]);
    assert_eq!(parse_data("03/4 1F/7 SVAL 9 L2.5"), 2.5f64.to_le_bytes().to_vec());
    assert_eq!(parse_data("03/4 1F/7 SVAL 9 7 D300"), vec![7, 0x2c, 0x01]);
}

#[test]
fn literal_errors() {
    assert_eq!(
        parse_err("03/4 1F/7 SVAL 9 DXYZ"),
        "Malformed decimal data argument: \"DXYZ\""
    );
    assert_eq!(
        parse_err("03/4 1F/7 SVAL 9 F1.5Q"),
        "Malformed floating-point data argument: \"F1.5Q\""
    );
    assert_eq!(
        parse_err("03/4 1F/7 SVAL 9 L1.5Q"),
        "Malformed double-precision data argument: \"L1.5Q\""
    );
    assert_eq!(
        parse_err("03/4 1F/7 SVAL 9 GG"),
        "Malformed hexadecimal data argument: \"GG\""
    );
    let long = "1".repeat(33);
    assert_eq!(
        parse_err(&format!("03/4 1F/7 SVAL 9 {}", long)),
        format!("Integer argument too large for rgas: \"{}\"", long)
    );
    assert_eq!(
        parse_err("03/4 1F/7 SVAL 9 D170141183460469231731687303715884105728"),
        "Malformed decimal data argument: \"D170141183460469231731687303715884105728\""
    );
}

#[test]
fn binary_round_trip() {
    let data: Vec<u8> = (0..200u8).collect();
    for len in [200u16, 255, 256, 300, 0x7fe] {
        let f = UCGMessageInternal { target: 0x15, subtarget: 2, source: 9, subsource: 6, op: 17, len, data: data.clone() };
        let mut bytes = f.into_byte_vec();
        assert_eq!(bytes[3], (len & 0xff) as u8);
        assert_eq!(bytes[2] & 0x07, (len >> 8) as u8);
        let g = UCGMessageInternal::from_byte_vec(&mut bytes).unwrap();
        assert_eq!((g.target, g.subtarget, g.source, g.subsource), (0x15, 2, 9, 6));
        assert_eq!(g.op, 17);
        assert_eq!(g.len, len);
        assert_eq!(g.data, data);
    }
}

#[test]
fn opcode_names() {
    let mut f = frame(0, 0, vec![]);
    assert!(f.set_op_from_text("DDIE"));
    assert_eq!(f.op, 17);
    assert_eq!(f.op_to_text(), "DDIE");
    assert!(!f.set_op_from_text("ddie"));
    assert_eq!(f.op, 17);
    assert!(f.set_op_from_text("NOP"));
    assert_eq!(f.op, 0);
}

#[test]
fn scripted_text_and_binary() {
    let s = scripted("+5 03/4 1F/7 RQRY 001 01", false).unwrap();
    assert!(s.rel);
    assert_eq!(s.ts, 5);
    assert_eq!(s.msg.data, vec![1]);
    assert_eq!(s.into_asm(false), "+5s 03/4 1F/7 RQRY 001 01");
    let mut bytes = s.into_byte_vec();
    assert_eq!(bytes, vec![5, 0, 0, 0x80, 0x1c, 0xff, 0x08, 0x01, 0x01]);
    let back = UCGScriptedMessageInternal::from_byte_vec(&mut bytes).unwrap();
    assert!(back.rel);
    assert_eq!(back.ts, 5);
    assert_eq!(back.msg.op, 1);
    assert_eq!(back.msg.data, vec![1]);
    assert_eq!(bytes, vec![5, 0, 0, 0x80]);
}

#[test]
fn scripted_largest_offset() {
    let s = scripted("+2147483647 03/4 1F/7 NOP 0", false).unwrap();
    assert_eq!(s.ts, 0x7fff_ffff);
    let mut bytes = s.into_byte_vec();
    assert_eq!(&bytes[..4], &[0xff, 0xff, 0xff, 0xff]);
    let back = UCGScriptedMessageInternal::from_byte_vec(&mut bytes).unwrap();
    assert!(back.rel);
    assert_eq!(back.ts, 0x7fff_ffff);
}

#[test]
fn text_of_declared_but_missing_payload() {
    let mut b = vec![0x1c, 0xff, 0x08, 0x05];
    let m = UCGMessageInternal::from_byte_vec(&mut b).unwrap();
    assert_eq!(m.len, 5);
    assert!(m.data.is_empty());
    assert_eq!(m.into_asm(false), "03/4 1F/7 RQRY 005");
    let s = UCGScriptedMessageInternal { rel: true, ts: 9, msg: m };
    assert_eq!(s.into_asm(true), "+9s 03/4 1F/7 RQRY 005");
}

#[test]
fn float_bytes_must_match_width() {
    let line = String::from("03/4 1F/7 SVAL 9 F1.5");
    let short = vec![None, None, None, None, Some(vec![0, 0, 0xc0])];
    assert_eq!(
        UCGMessageInternal::parse_asm_line(&line, false, &short).err(),
        Some(String::from("Malformed floating-point data argument: \"F1.5\""))
    );
    let double = String::from("03/4 1F/7 SVAL 9 L1.5");
    let four = vec![None, None, None, None, Some(vec![0, 0, 0xc0, 0x3f])];
    assert_eq!(
        UCGMessageInternal::parse_asm_line(&double, false, &four).err(),
        Some(String::from("Malformed double-precision data argument: \"L1.5\""))
    );
    let ok = vec![None, None, None, None, Some(vec![0, 0, 0xc0, 0x3f])];
    assert_eq!(UCGMessageInternal::parse_asm_line(&line, false, &ok).unwrap().data, vec![0, 0, 0xc0, 0x3f]);
}

#[test]
fn scripted_float_literal() {
    let s = scripted("+1 03/4 1F/7 RVAL 005 01 F202.5", false).unwrap();
    assert_eq!(s.msg.data, vec![1, 0x00, 0x80, 0x4a, 0x43]);
}

#[test]
fn scripted_absolute() {
    let s = UCGScriptedMessageInternal { rel: false, ts: 0x8000_0005, msg: frame(1, 1, vec![1]) };
    assert_eq!(s.into_asm(false), "ABSOLUTE 03/4 1F/7 RQRY 001 01");
    assert_eq!(s.into_byte_vec(), vec![5, 0, 0, 0, 0x1c, 0xff, 0x08, 0x01, 0x01]);
    let mut b = vec![7, 0, 0, 0, 0x1c, 0xff, 0x08, 0x00];
    let back = UCGScriptedMessageInternal::from_byte_vec(&mut b).unwrap();
    assert!(!back.rel);
    assert_eq!(back.ts, 7);
}

#[test]
fn scripted_decode_failures() {
    let mut short = vec![1, 2, 3];
    assert!(UCGScriptedMessageInternal::from_byte_vec(&mut short).is_none());
    let mut only_stamp = vec![1, 0, 0, 0x80];
    assert!(UCGScriptedMessageInternal::from_byte_vec(&mut only_stamp).is_none());
    let mut bad_op = vec![1, 0, 0, 0x80, 0, 0, 0xff, 0];
    assert!(UCGScriptedMessageInternal::from_byte_vec(&mut bad_op).is_none());
}

#[test]
fn scripted_errors() {
    let err = |line: &str| scripted(line, false).err().unwrap();
    assert_eq!(err(""), "Missing timestamp.");
    assert_eq!(
        err("5 03/4 1F/7 RQRY 001"),
        "Absolute timestamp not supported in this version of rgas: \"5\""
    );
    assert_eq!(
        err("03/4 1F/7 RQRY 001"),
        "Absolute timestamp not supported in this version of rgas: \"03/4\""
    );
    assert_eq!(
        err("# note"),
        "Not a valid timestamp: \"#\".  Did you mean to use immediate mode?"
    );
    assert_eq!(
        err("+x 03/4 1F/7 RQRY 001"),
        "Failed to parse relative time offset \"+X\": invalid digit found in string"
    );
    assert_eq!(
        err("+ 03/4 1F/7 RQRY 001"),
        "Failed to parse relative time offset \"+\": cannot parse integer from empty string"
    );
    assert_eq!(
        err("+4294967296 03/4 1F/7 RQRY 001"),
        "Failed to parse relative time offset \"+4294967296\": number too large to fit in target type"
    );
    assert_eq!(
        err("+2147483648 03/4 1F/7 NOP 0"),
        "Failed to parse relative time offset \"+2147483648\": number too large to fit in target type"
    );
    assert_eq!(err("+1 03/4 1F/7 nope 001"), "Invalid opcode: \"NOPE\".");
    assert_eq!(err("+1"), "Missing target address.");
}

#[test]
fn scripted_comment() {
    assert_eq!(scripted("+5  #  Note  here", true).err(), Some(String::from("# NOTE HERE")));
    assert_eq!(scripted("+5 # note", false).err(), Some(String::new()));
}

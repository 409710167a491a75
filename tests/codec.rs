use rgas::{asm_words, UCGMessage, UCGMessageInternal};

/// The bytes of each float literal of a line, read the way the command-line
/// tools read them.
fn floats_of(line: &str) -> Vec<Option<Vec<u8>>> {
    asm_words(&String::from(line))
        .iter()
        .map(|w| {
            let mut cs = w.chars();
            match cs.next() {
                Some('F') => cs.as_str().parse::<f32>().ok().map(|f| f.to_le_bytes().to_vec()),
                Some('L') => cs.as_str().parse::<f64>().ok().map(|f| f.to_le_bytes().to_vec()),
                _ => None,
            }
        })
        .collect()
}

#[test]
fn assembly_from_struct() {
    let mut a = UCGMessageInternal {
        target: 3,
        subtarget: 4,
        source: 0x1f,
        subsource: 7,
        op: 1,
        len: 2,
        data: vec![1, 2],
    };
    let result = a.into_asm(false);
    assert_eq!(result, "03/4 1F/7 RQRY 002 01 02");
    a.data = vec![1, 0x00, 0xFF];
    a.len = 3;
    let result = a.into_asm(false);
    assert_eq!(result, "03/4 1F/7 RQRY 003 01 FF00");
    a.data = vec![1, 0x39, 0x30];
    a.len = 3;
    let result = a.into_asm(true);
    assert_eq!(result, "03/4 1F/7 RQRY 003 01 D12345");
}

#[test]
fn struct_from_assembly() {
    let test_str = "03/4 1F/7 RQRY 001 01";
    match UCGMessageInternal::parse_asm_line(&String::from(test_str), false, &floats_of(test_str)) {
        Ok(m) => {
            assert_eq!(m.target, 3);
            assert_eq!(m.subtarget, 4);
            assert_eq!(m.source, 0x1f);
            assert_eq!(m.subsource, 7);
            assert_eq!(m.op, 1);
            assert_eq!(m.len, 1);
            assert_eq!(m.data, vec![1]);
        }
        Err(s) => {
            panic!("{}", s);
        }
    }
}

#[test]
fn struct_from_assembly_decimal() {
    let test_str = "03/4 1F/7 RVAL 003 01 D10000";
    match UCGMessageInternal::parse_asm_line(&String::from(test_str), false, &floats_of(test_str)) {
        Ok(m) => {
            assert_eq!(m.target, 3);
            assert_eq!(m.subtarget, 4);
            assert_eq!(m.source, 0x1f);
            assert_eq!(m.subsource, 7);
            assert_eq!(m.op, 5);
            assert_eq!(m.len, 3);
            assert_eq!(m.data, vec![1, 0x10, 0x27]);
        }
        Err(s) => {
            panic!("{}", s);
        }
    }
}

#[test]
fn struct_from_assembly_float() {
    let test_str = "03/4 1F/7 RVAL 005 01 F202.5";
    match UCGMessageInternal::parse_asm_line(&String::from(test_str), false, &floats_of(test_str)) {
        Ok(m) => {
            assert_eq!(m.data, vec![1, 0x00, 0x80, 0x4a, 0x43]);
        }
        Err(s) => {
            panic!("{}", s);
        }
    }
}

#[test]
fn struct_from_binary_vector_basic() {
    let mut test_vec = vec![0x1C, 0xFF, 0x08, 0x01, 0x01];
    if let Some(m) = UCGMessageInternal::from_byte_vec(&mut test_vec) {
        assert_eq!(m.target, 3);
        assert_eq!(m.subtarget, 4);
        assert_eq!(m.source, 0x1f);
        assert_eq!(m.subsource, 7);
        assert_eq!(m.op, 1);
        assert_eq!(m.len, 1);
        assert_eq!(m.data, vec![1]);
    } else {
        panic!();
    }
}

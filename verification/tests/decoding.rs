use stack_vm::decode::{words_from_bytes, DecodeError};
use stack_vm::opcodes::{OpCode, OpKind};

fn text_words(text: &str) -> Vec<u64> {
    let mut bytes = text.as_bytes().to_vec();
    while bytes.len() % 8 != 0 {
        bytes.push(0);
    }
    let mut words = vec![18, (bytes.len() / 8) as u64];
    for chunk in bytes.chunks(8) {
        let mut word = [0u8; 8];
        word.copy_from_slice(chunk);
        words.push(u64::from_le_bytes(word));
    }
    words
}

#[test]
fn tags_without_operands() {
    let words: Vec<u64> = (1..=15).chain([20, 21, 27, 28]).collect();
    assert_eq!(
        OpCode::from_vec(&words),
        Ok(vec![
            OpCode::Add,
            OpCode::Sub,
            OpCode::Mul,
            OpCode::Div,
            OpCode::Mod,
            OpCode::Neg,
            OpCode::Not,
            OpCode::And,
            OpCode::Or,
            OpCode::Eq,
            OpCode::Neq,
            OpCode::Lt,
            OpCode::Gt,
            OpCode::Lte,
            OpCode::Gte,
            OpCode::PushObject,
            OpCode::PushList,
            OpCode::Call,
            OpCode::Return,
        ])
    );
    assert_eq!(OpCode::from_vec(&vec![]), Ok(vec![]));
}

#[test]
fn tags_with_one_operand() {
    let words = vec![
        16,
        5,
        16,
        u64::MAX,
        16,
        1 << 63,
        17,
        0x3ff0_0000_0000_0000,
        19,
        0,
        19,
        7,
        23,
        3,
        24,
        4,
        25,
        (-13i64) as u64,
        26,
        500,
    ];
    assert_eq!(
        OpCode::from_vec(&words),
        Ok(vec![
            OpCode::PushInt(5),
            OpCode::PushInt(-1),
            OpCode::PushInt(i64::MIN),
            OpCode::PushFloat(1.0f64.to_bits()),
            OpCode::PushBool(false),
            OpCode::PushBool(true),
            OpCode::Store(3),
            OpCode::Load(4),
            OpCode::Jump(-13),
            OpCode::JumpIfFalse(500),
        ])
    );
}

#[test]
fn a_counting_program() {
    let words: Vec<u64> = vec![
        16, 0, 23, 0, 16, 0, 23, 1, 24, 1, 16, 10, 12, 26, 500, 24, 1, 24, 0, 1, 23, 0, 24, 1, 16, 1, 1,
        23, 1, 25, (-13i64) as u64,
    ];
    assert_eq!(
        OpCode::from_vec(&words),
        Ok(vec![
            OpCode::PushInt(0),
            OpCode::Store(0),
            OpCode::PushInt(0),
            OpCode::Store(1),
            OpCode::Load(1),
            OpCode::PushInt(10),
            OpCode::Lt,
            OpCode::JumpIfFalse(500),
            OpCode::Load(1),
            OpCode::Load(0),
            OpCode::Add,
            OpCode::Store(0),
            OpCode::Load(1),
            OpCode::PushInt(1),
            OpCode::Add,
            OpCode::Store(1),
            OpCode::Jump(-13),
        ])
    );
}

#[test]
fn strings_are_padded_with_zero_bytes() {
    assert_eq!(
        OpCode::from_vec(&text_words("Hello, World!")),
        Ok(vec![OpCode::PushString("Hello, World!".to_string())])
    );
    assert_eq!(OpCode::from_vec(&text_words("12345678")), Ok(vec![OpCode::PushString("12345678".to_string())]));
    assert_eq!(OpCode::from_vec(&text_words("h\u{e9}llo \u{1f600}")), Ok(vec![OpCode::PushString("h\u{e9}llo \u{1f600}".to_string())]));
    assert_eq!(OpCode::from_vec(&vec![18, 0]), Ok(vec![OpCode::PushString(String::new())]));
    assert_eq!(OpCode::from_vec(&vec![18, 2, 0, 0, 1]), Ok(vec![OpCode::PushString(String::new()), OpCode::Add]));
    // A zero byte inside the text stays.
    assert_eq!(
        OpCode::from_vec(&vec![18, 1, u64::from_le_bytes([b'a', 0, b'b', 0, 0, 0, 0, 0])]),
        Ok(vec![OpCode::PushString("a\0b".to_string())])
    );
    // The first byte of the text sits in the lowest bits of the word.
    assert_eq!(
        OpCode::from_vec(&vec![18, 1, 0x0000_0000_0000_6261]),
        Ok(vec![OpCode::PushString("ab".to_string())])
    );
}

#[test]
fn text_that_is_not_utf8_is_refused() {
    assert_eq!(OpCode::from_vec(&vec![18, 1, 0xff]), Err(DecodeError::InvalidText));
    // A sequence cut short by the padding.
    assert_eq!(OpCode::from_vec(&vec![18, 1, 0xc3]), Err(DecodeError::InvalidText));
    // A surrogate.
    assert_eq!(OpCode::from_vec(&vec![18, 1, 0x00a0_a0ed]), Err(DecodeError::InvalidText));
}

#[test]
fn function_bodies_nest() {
    let words = vec![22, 3, 16, 1, 22, 1, 28, 1, 2];
    assert_eq!(
        OpCode::from_vec(&words),
        Ok(vec![
            OpCode::Function(vec![
                OpCode::PushInt(1),
                OpCode::Function(vec![OpCode::Return]),
                OpCode::Add,
            ]),
            OpCode::Sub,
        ])
    );
    assert_eq!(OpCode::from_vec(&vec![22, 0]), Ok(vec![OpCode::Function(vec![])]));
}

#[test]
fn a_stream_that_ends_inside_an_instruction_is_truncated() {
    for words in [
        vec![16],
        vec![17],
        vec![18],
        vec![18, 1],
        vec![18, 2, 0],
        vec![18, u64::MAX],
        vec![19],
        vec![22],
        vec![22, 1],
        vec![22, 2, 1],
        vec![22, u64::MAX, 1],
        vec![22, 1, 16],
        vec![23],
        vec![24],
        vec![25],
        vec![1, 26],
    ] {
        assert_eq!(OpCode::from_vec(&words), Err(DecodeError::Truncated), "{:?}", words);
    }
}

#[test]
fn a_tag_that_names_no_instruction_is_refused() {
    for tag in [0u64, 29, 30, 31, 255, u64::MAX] {
        assert_eq!(OpCode::from_vec(&vec![1, tag]), Err(DecodeError::UnknownTag));
    }
    assert_eq!(OpCode::from_vec(&vec![22, 1, 0]), Err(DecodeError::UnknownTag));
}

#[test]
fn decode_at_returns_where_the_next_instruction_starts() {
    let words = vec![1, 16, 9, 22, 1, 18, 1, 0x61, 28];
    assert_eq!(OpCode::decode_at(&words, 0), Ok((OpCode::Add, 1)));
    assert_eq!(OpCode::decode_at(&words, 1), Ok((OpCode::PushInt(9), 3)));
    assert_eq!(
        OpCode::decode_at(&words, 3),
        Ok((OpCode::Function(vec![OpCode::PushString("a".to_string())]), 8))
    );
    assert_eq!(OpCode::decode_at(&words, 8), Ok((OpCode::Return, 9)));
    assert_eq!(OpCode::decode_at(&words, 9), Err(DecodeError::Truncated));
    assert_eq!(OpCode::decode_at(&words, usize::MAX), Err(DecodeError::Truncated));
}

#[test]
fn words_are_big_endian() {
    let bytes = vec![0, 0, 0, 0, 0, 0, 0, 16, 0x01, 0x02, 0x03, 0x04, 0x05, 0x06, 0x07, 0x08];
    assert_eq!(words_from_bytes(&bytes), Ok(vec![16, 0x0102_0304_0506_0708]));
    assert_eq!(words_from_bytes(&vec![0xff; 8]), Ok(vec![u64::MAX]));
    assert_eq!(words_from_bytes(&vec![]), Ok(vec![]));
    let words = words_from_bytes(&bytes).unwrap();
    assert_eq!(OpCode::from_vec(&words), Ok(vec![OpCode::PushInt(0x0102_0304_0506_0708)]));
}

#[test]
fn bytes_that_fill_no_whole_word_are_truncated() {
    for len in [1usize, 7, 9, 15] {
        assert_eq!(words_from_bytes(&vec![0; len]), Err(DecodeError::Truncated));
    }
}

#[test]
fn every_instruction_has_its_kind() {
    assert_eq!(OpCode::PushInt(1).kind(), OpKind::PushInt);
    assert_eq!(OpCode::Function(vec![OpCode::Add]).kind(), OpKind::Function);
    assert_eq!(OpCode::Dup.kind(), OpKind::Dup);
    assert_eq!(OpCode::ListAccess.kind(), OpKind::ListAccess);
}

#[test]
fn a_copy_of_an_instruction_equals_it() {
    let op = OpCode::Function(vec![
        OpCode::PushString("s".to_string()),
        OpCode::Function(vec![OpCode::Jump(-1), OpCode::PushFloat(3)]),
    ]);
    assert_eq!(op.duplicate(), op);
    assert_eq!(op.clone(), op);
}

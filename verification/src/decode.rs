//! The binary form of a program: a stream of 64-bit words, each instruction a
//! tag word followed by its operand words.
//!
//! | tag | instruction | operand words |
//! |-----|-------------|---------------|
//! | 1 to 15 | `Add`, `Sub`, `Mul`, `Div`, `Mod`, `Neg`, `Not`, `And`, `Or`, `Eq`, `Neq`, `Lt`, `Gt`, `Lte`, `Gte` | none |
//! | 16 | `PushInt` | the integer, in two's complement |
//! | 17 | `PushFloat` | the IEEE 754 bits |
//! | 18 | `PushString` | the number of text words, then the text |
//! | 19 | `PushBool` | zero for `false`, anything else for `true` |
//! | 20, 21 | `PushObject`, `PushList` | none |
//! | 22 | `Function` | the number of instructions of the body, then the body |
//! | 23, 24 | `Store`, `Load` | the slot |
//! | 25, 26 | `Jump`, `JumpIfFalse` | the offset, in two's complement |
//! | 27, 28 | `Call`, `Return` | none |
//!
//! Text is UTF-8, eight bytes to a word with the first byte in the lowest
//! bits, padded with zero bytes at the end.

use vstd::prelude::*;
use vstd::utf8::{decode_utf8, valid_utf8};
use crate::opcodes::{OpCode, OpView, code_view, lemma_function_view};

verus! {

/// Why a word stream is no program.
#[derive(Clone, Copy, Debug, PartialEq, Eq, Structural)]
pub enum DecodeError {
    /// The stream ends inside an instruction, or its length in bytes is no
    /// multiple of eight.
    Truncated,
    /// A tag word names no instruction.
    UnknownTag,
    /// The text of a string is not valid UTF-8.
    InvalidText,
    /// A slot does not fit the machine's index type.
    OperandOutOfRange,
}

/// The word that eight bytes make, the first byte in the highest bits.
pub open spec fn be_word(bytes: Seq<u8>) -> u64 {
    (bytes[0] as int * 0x100_0000_0000_0000 + bytes[1] as int * 0x1_0000_0000_0000 + bytes[2] as int
        * 0x100_0000_0000 + bytes[3] as int * 0x1_0000_0000 + bytes[4] as int * 0x100_0000
        + bytes[5] as int * 0x1_0000 + bytes[6] as int * 0x100 + bytes[7] as int) as u64
}

/// The words that a byte stream makes, eight bytes to a word.
pub open spec fn be_words(bytes: Seq<u8>) -> Seq<u64> {
    Seq::new(bytes.len() / 8, |i: int| be_word(bytes.subrange(8 * i, 8 * i + 8)))
}

/// The eight bytes of a word, the lowest bits first.
pub open spec fn word_bytes(word: u64) -> Seq<u8> {
    seq![
        (word & 0xff) as u8,
        ((word >> 8) & 0xff) as u8,
        ((word >> 16) & 0xff) as u8,
        ((word >> 24) & 0xff) as u8,
        ((word >> 32) & 0xff) as u8,
        ((word >> 40) & 0xff) as u8,
        ((word >> 48) & 0xff) as u8,
        ((word >> 56) & 0xff) as u8,
    ]
}

/// The bytes of a run of text words.
pub open spec fn text_bytes(words: Seq<u64>) -> Seq<u8>
    decreases words.len(),
{
    if words.len() == 0 {
        Seq::empty()
    } else {
        text_bytes(words.drop_last()) + word_bytes(words.last())
    }
}

/// The bytes without the zero bytes at their end.
pub open spec fn trim_nul(bytes: Seq<u8>) -> Seq<u8>
    decreases bytes.len(),
{
    if bytes.len() > 0 && bytes.last() == 0 {
        trim_nul(bytes.drop_last())
    } else {
        bytes
    }
}

/// The text that a run of text words holds.
pub open spec fn decode_text(words: Seq<u64>) -> Result<Seq<char>, DecodeError> {
    let bytes = trim_nul(text_bytes(words));
    if valid_utf8(bytes) {
        Ok(decode_utf8(bytes))
    } else {
        Err(DecodeError::InvalidText)
    }
}

/// The signed integer with the bits of `word`.
pub open spec fn signed(word: u64) -> i64 {
    if word > i64::MAX {
        (word - 0x1_0000_0000_0000_0000) as i64
    } else {
        word as i64
    }
}

/// The operand word of the instruction whose tag is at `pos`.
pub open spec fn operand(words: Seq<u64>, pos: int) -> Result<u64, DecodeError> {
    if pos + 1 < words.len() {
        Ok(words[pos + 1])
    } else {
        Err(DecodeError::Truncated)
    }
}

/// The instruction that a tag alone stands for.
pub open spec fn plain_op(tag: u64) -> Option<OpView> {
    if tag == 1 {
        Some(OpView::Add)
    } else if tag == 2 {
        Some(OpView::Sub)
    } else if tag == 3 {
        Some(OpView::Mul)
    } else if tag == 4 {
        Some(OpView::Div)
    } else if tag == 5 {
        Some(OpView::Mod)
    } else if tag == 6 {
        Some(OpView::Neg)
    } else if tag == 7 {
        Some(OpView::Not)
    } else if tag == 8 {
        Some(OpView::And)
    } else if tag == 9 {
        Some(OpView::Or)
    } else if tag == 10 {
        Some(OpView::Eq)
    } else if tag == 11 {
        Some(OpView::Neq)
    } else if tag == 12 {
        Some(OpView::Lt)
    } else if tag == 13 {
        Some(OpView::Gt)
    } else if tag == 14 {
        Some(OpView::Lte)
    } else if tag == 15 {
        Some(OpView::Gte)
    } else if tag == 20 {
        Some(OpView::PushObject)
    } else if tag == 21 {
        Some(OpView::PushList)
    } else if tag == 27 {
        Some(OpView::Call)
    } else if tag == 28 {
        Some(OpView::Return)
    } else {
        None
    }
}

/// The instruction that a tag makes with its one operand word, for the tags
/// that take one.
pub open spec fn word_op(tag: u64, word: u64) -> Option<Result<OpView, DecodeError>> {
    if tag == 16 {
        Some(Ok(OpView::PushInt(signed(word))))
    } else if tag == 17 {
        Some(Ok(OpView::PushFloat(word)))
    } else if tag == 19 {
        Some(Ok(OpView::PushBool(word != 0)))
    } else if tag == 23 {
        Some(
            if word > usize::MAX {
                Err(DecodeError::OperandOutOfRange)
            } else {
                Ok(OpView::Store(word as usize))
            },
        )
    } else if tag == 24 {
        Some(
            if word > usize::MAX {
                Err(DecodeError::OperandOutOfRange)
            } else {
                Ok(OpView::Load(word as usize))
            },
        )
    } else if tag == 25 {
        Some(Ok(OpView::Jump(signed(word))))
    } else if tag == 26 {
        Some(Ok(OpView::JumpIfFalse(signed(word))))
    } else {
        None
    }
}

/// Whether the tag takes exactly one operand word.
pub open spec fn takes_word(tag: u64) -> bool {
    tag == 16 || tag == 17 || tag == 19 || 23 <= tag <= 26
}

/// The instruction whose tag is at `pos`, and where the next one starts.
pub open spec fn decode_op(words: Seq<u64>, pos: int) -> Result<(OpView, int), DecodeError>
    decreases words.len() - pos, 0int,
{
    if pos < 0 || pos >= words.len() {
        Err(DecodeError::Truncated)
    } else if plain_op(words[pos]) is Some {
        Ok((plain_op(words[pos])->Some_0, pos + 1))
    } else if !(takes_word(words[pos]) || words[pos] == 18 || words[pos] == 22) {
        Err(DecodeError::UnknownTag)
    } else {
        match operand(words, pos) {
            Err(e) => Err(e),
            Ok(word) => if words[pos] == 18 {
                if pos + 2 + word > words.len() {
                    Err(DecodeError::Truncated)
                } else {
                    match decode_text(words.subrange(pos + 2, pos + 2 + word)) {
                        Ok(text) => Ok((OpView::PushString(text), pos + 2 + word)),
                        Err(e) => Err(e),
                    }
                }
            } else if words[pos] == 22 {
                match decode_body(words, pos + 2, word as nat, Seq::empty()) {
                    Ok((body, next)) => Ok((OpView::Function(body), next)),
                    Err(e) => Err(e),
                }
            } else {
                match word_op(words[pos], word)->Some_0 {
                    Ok(op) => Ok((op, pos + 2)),
                    Err(e) => Err(e),
                }
            },
        }
    }
}

/// `decoded` followed by the `count` instructions that start at `pos`, and
/// where the instruction after them starts.
///
/// The test on `next` is there for the definition to be well founded; it
/// never fails, as [`lemma_decode_advances`] shows.
pub open spec fn decode_body(words: Seq<u64>, pos: int, count: nat, decoded: Seq<OpView>) -> Result<
    (Seq<OpView>, int),
    DecodeError,
>
    decreases words.len() - pos, 1int, count,
{
    if count == 0 {
        Ok((decoded, pos))
    } else {
        match decode_op(words, pos) {
            Ok((op, next)) => if pos < next <= words.len() {
                decode_body(words, next, (count - 1) as nat, decoded.push(op))
            } else {
                Err(DecodeError::Truncated)
            },
            Err(e) => Err(e),
        }
    }
}

/// `decoded` followed by the instructions from `pos` to the end of the
/// stream.
pub open spec fn decode_rest(words: Seq<u64>, pos: int, decoded: Seq<OpView>) -> Result<
    Seq<OpView>,
    DecodeError,
>
    decreases words.len() - pos,
{
    if pos >= words.len() {
        Ok(decoded)
    } else {
        match decode_op(words, pos) {
            Ok((op, next)) => if pos < next <= words.len() {
                decode_rest(words, next, decoded.push(op))
            } else {
                Err(DecodeError::Truncated)
            },
            Err(e) => Err(e),
        }
    }
}

/// The program that a word stream holds.
pub open spec fn decode_program(words: Seq<u64>) -> Result<Seq<OpView>, DecodeError> {
    decode_rest(words, 0, Seq::empty())
}

/// An instruction ends after its tag and within the stream, and so does a
/// body after its first instruction.
pub proof fn lemma_decode_advances(words: Seq<u64>, pos: int, count: nat, decoded: Seq<OpView>)
    ensures
        decode_op(words, pos) matches Ok((_, next)) ==> pos < next <= words.len(),
        0 <= pos <= words.len() ==> (decode_body(words, pos, count, decoded) matches Ok((_, next))
            ==> pos <= next <= words.len()),
    decreases words.len() - pos, count,
{
    if 0 <= pos < words.len() {
        if words[pos] == 22 && pos + 1 < words.len() {
            lemma_decode_advances(words, pos + 2, words[pos + 1] as nat, Seq::empty());
        }
        if count > 0 {
            if let Ok((op, next)) = decode_op(words, pos) {
                if pos < next <= words.len() {
                    lemma_decode_advances(words, next, (count - 1) as nat, decoded.push(op));
                }
            }
        }
    }
}

/// `String::from_utf8` of the standard library: the text that the bytes
/// encode, where they are valid UTF-8, and nothing where they are not.
#[verifier::external_body]
fn string_from_utf8(bytes: Vec<u8>) -> (text: Option<String>)
    ensures
        match text {
            Some(s) => valid_utf8(bytes@) && s@ == decode_utf8(bytes@),
            None => !valid_utf8(bytes@),
        },
{
    match String::from_utf8(bytes) {
        Ok(s) => Some(s),
        Err(_) => None,
    }
}

/// Appends the eight bytes of `word`, the lowest bits first.
fn push_word_bytes(bytes: &mut Vec<u8>, word: u64)
    ensures
        final(bytes)@ == old(bytes)@ + word_bytes(word),
{
    let mut shift: u64 = 0;
    while shift < 64
        invariant
            shift % 8 == 0,
            shift <= 64,
            bytes@ == old(bytes)@ + word_bytes(word).take(shift as int / 8),
        decreases 64 - shift,
    {
        let low: u64 = (word >> shift) & 0xff;
        assert(low < 0x100) by (bit_vector)
            requires
                low == (word >> shift) & 0xff,
        ;
        assert(word >> 0u64 == word) by (bit_vector);
        bytes.push(low as u8);
        assert(bytes@ =~= old(bytes)@ + word_bytes(word).take((shift + 8) as int / 8));
        shift = shift + 8;
    }
    assert(word_bytes(word).take(8) =~= word_bytes(word));
}

/// The text in the `size` words from `start`.
fn text_at(words: &Vec<u64>, start: usize, size: usize) -> (result: Result<String, DecodeError>)
    requires
        start + size <= words.len(),
    ensures
        match result {
            Ok(text) => decode_text(words@.subrange(start as int, start + size)) == Ok::<
                Seq<char>,
                DecodeError,
            >(text@),
            Err(e) => decode_text(words@.subrange(start as int, start + size)) == Err::<
                Seq<char>,
                DecodeError,
            >(e),
        },
{
    let mut bytes: Vec<u8> = Vec::new();
    let mut i: usize = 0;
    while i < size
        invariant
            i <= size,
            start + size <= words.len(),
            bytes@ == text_bytes(words@.subrange(start as int, start + i)),
        decreases size - i,
    {
        push_word_bytes(&mut bytes, words[start + i]);
        proof {
            let run = words@.subrange(start as int, start + i + 1);
            assert(run.drop_last() =~= words@.subrange(start as int, start + i));
        }
        i = i + 1;
    }
    let ghost all = bytes@;
    while bytes.len() > 0 && bytes[bytes.len() - 1] == 0
        invariant
            trim_nul(bytes@) == trim_nul(all),
        decreases bytes.len(),
    {
        let ghost before = bytes@;
        bytes.pop();
        assert(bytes@ =~= before.drop_last());
    }
    match string_from_utf8(bytes) {
        Some(text) => Ok(text),
        None => Err(DecodeError::InvalidText),
    }
}

/// The signed integer with the bits of `word`.
fn to_signed(word: u64) -> (value: i64)
    ensures
        value == signed(word),
{
    if word >= 0x8000_0000_0000_0000 {
        let low: u64 = word - 0x8000_0000_0000_0000;
        (low as i64) + i64::MIN
    } else {
        word as i64
    }
}

/// The operand word of the instruction whose tag is at `pos`.
fn operand_at(words: &Vec<u64>, pos: usize) -> (result: Result<u64, DecodeError>)
    requires
        pos < words.len(),
    ensures
        result == operand(words@, pos as int),
{
    if pos + 1 < words.len() {
        Ok(words[pos + 1])
    } else {
        Err(DecodeError::Truncated)
    }
}

/// The instruction that a tag alone stands for.
fn plain_at(tag: u64) -> (op: Option<OpCode>)
    ensures
        match op {
            Some(op) => plain_op(tag) == Some(op@),
            None => plain_op(tag) is None,
        },
{
    match tag {
        1 => Some(OpCode::Add),
        2 => Some(OpCode::Sub),
        3 => Some(OpCode::Mul),
        4 => Some(OpCode::Div),
        5 => Some(OpCode::Mod),
        6 => Some(OpCode::Neg),
        7 => Some(OpCode::Not),
        8 => Some(OpCode::And),
        9 => Some(OpCode::Or),
        10 => Some(OpCode::Eq),
        11 => Some(OpCode::Neq),
        12 => Some(OpCode::Lt),
        13 => Some(OpCode::Gt),
        14 => Some(OpCode::Lte),
        15 => Some(OpCode::Gte),
        20 => Some(OpCode::PushObject),
        21 => Some(OpCode::PushList),
        27 => Some(OpCode::Call),
        28 => Some(OpCode::Return),
        _ => None,
    }
}

/// The instruction that a tag makes with its one operand word.
fn with_word(tag: u64, word: u64) -> (op: Result<OpCode, DecodeError>)
    requires
        takes_word(tag),
    ensures
        match op {
            Ok(op) => word_op(tag, word) == Some(Ok::<OpView, DecodeError>(op@)),
            Err(e) => word_op(tag, word) == Some(Err::<OpView, DecodeError>(e)),
        },
{
    if tag == 16 {
        Ok(OpCode::PushInt(to_signed(word)))
    } else if tag == 17 {
        Ok(OpCode::PushFloat(word))
    } else if tag == 19 {
        Ok(OpCode::PushBool(word != 0))
    } else if tag == 25 {
        Ok(OpCode::Jump(to_signed(word)))
    } else if tag == 26 {
        Ok(OpCode::JumpIfFalse(to_signed(word)))
    } else if word > usize::MAX as u64 {
        Err(DecodeError::OperandOutOfRange)
    } else if tag == 23 {
        Ok(OpCode::Store(word as usize))
    } else {
        Ok(OpCode::Load(word as usize))
    }
}

impl OpCode {
    /// Decodes the instruction whose tag is at `pos`; returns it with the
    /// position of the next instruction.
    pub fn decode_at(words: &Vec<u64>, pos: usize) -> (result: Result<(OpCode, usize), DecodeError>)
        ensures
            match result {
                Ok((op, next)) => decode_op(words@, pos as int) == Ok::<(OpView, int), DecodeError>(
                    (op@, next as int),
                ) && pos < next <= words.len(),
                Err(e) => decode_op(words@, pos as int) == Err::<(OpView, int), DecodeError>(e),
            },
        decreases words.len() - pos,
    {
        if pos >= words.len() {
            return Err(DecodeError::Truncated);
        }
        let tag = words[pos];
        if let Some(op) = plain_at(tag) {
            return Ok((op, pos + 1));
        }
        let one_word = tag == 16 || tag == 17 || tag == 19 || (23 <= tag && tag <= 26);
        if !(one_word || tag == 18 || tag == 22) {
            return Err(DecodeError::UnknownTag);
        }
        let word = match operand_at(words, pos) {
            Ok(word) => word,
            Err(e) => {
                return Err(e);
            },
        };
        if tag == 18 {
            let left: usize = words.len() - (pos + 2);
            if word > left as u64 {
                Err(DecodeError::Truncated)
            } else {
                let size: usize = word as usize;
                match text_at(words, pos + 2, size) {
                    Ok(text) => Ok((OpCode::PushString(text), pos + 2 + size)),
                    Err(e) => Err(e),
                }
            }
        } else if tag == 22 {
            let mut body: Vec<OpCode> = Vec::new();
            let mut next: usize = pos + 2;
            let mut left: u64 = word;
            assert(code_view(body@) =~= Seq::empty());
            while left > 0
                invariant
                    pos + 2 <= next <= words.len(),
                    words@[pos as int] == 22,
                    operand(words@, pos as int) == Ok::<u64, DecodeError>(word),
                    decode_body(words@, pos + 2, word as nat, Seq::empty()) == decode_body(
                        words@,
                        next as int,
                        left as nat,
                        code_view(body@),
                    ),
                decreases left,
            {
                match OpCode::decode_at(words, next) {
                    Ok((op, after)) => {
                        proof {
                            assert(code_view(body@).push(op@) =~= code_view(body@.push(op)));
                        }
                        body.push(op);
                        next = after;
                        left = left - 1;
                    },
                    Err(e) => {
                        return Err(e);
                    },
                }
            }
            proof {
                lemma_function_view(body);
            }
            Ok((OpCode::Function(body), next))
        } else {
            match with_word(tag, word) {
                Ok(op) => Ok((op, pos + 2)),
                Err(e) => Err(e),
            }
        }
    }

    /// Decodes a whole word stream into the program it holds.
    pub fn from_vec(vec: &Vec<u64>) -> (result: Result<Vec<OpCode>, DecodeError>)
        ensures
            match result {
                Ok(program) => decode_program(vec@) == Ok::<Seq<OpView>, DecodeError>(
                    code_view(program@),
                ),
                Err(e) => decode_program(vec@) == Err::<Seq<OpView>, DecodeError>(e),
            },
    {
        let mut program: Vec<OpCode> = Vec::new();
        let mut pos: usize = 0;
        assert(code_view(program@) =~= Seq::empty());
        while pos < vec.len()
            invariant
                pos <= vec.len(),
                decode_program(vec@) == decode_rest(vec@, pos as int, code_view(program@)),
            decreases vec.len() - pos,
        {
            match OpCode::decode_at(vec, pos) {
                Ok((op, next)) => {
                    proof {
                        assert(code_view(program@).push(op@) =~= code_view(program@.push(op)));
                    }
                    program.push(op);
                    pos = next;
                },
                Err(e) => {
                    return Err(e);
                },
            }
        }
        Ok(program)
    }
}

/// The words of a byte stream, eight bytes to a word with the first byte in
/// the highest bits. A stream whose length is no multiple of eight is
/// truncated.
pub fn words_from_bytes(bytes: &Vec<u8>) -> (result: Result<Vec<u64>, DecodeError>)
    ensures
        match result {
            Ok(words) => bytes@.len() % 8 == 0 && words@ == be_words(bytes@),
            Err(error) => bytes@.len() % 8 != 0 && error == DecodeError::Truncated,
        },
{
    if bytes.len() % 8 != 0 {
        return Err(DecodeError::Truncated);
    }
    let mut words: Vec<u64> = Vec::new();
    let mut i: usize = 0;
    while i < bytes.len()
        invariant
            i <= bytes.len(),
            i % 8 == 0,
            bytes.len() % 8 == 0,
            words@.len() == i / 8,
            forall|k: int| 0 <= k < words@.len() ==> words@[k] == be_word(bytes@.subrange(8 * k, 8 * k + 8)),
        decreases bytes.len() - i,
    {
        let ghost chunk = bytes@.subrange(i as int, i + 8);
        let b0 = bytes[i] as u64;
        let b1 = bytes[i + 1] as u64;
        let b2 = bytes[i + 2] as u64;
        let b3 = bytes[i + 3] as u64;
        let b4 = bytes[i + 4] as u64;
        let b5 = bytes[i + 5] as u64;
        let b6 = bytes[i + 6] as u64;
        let b7 = bytes[i + 7] as u64;
        let word: u64 = b0 * 0x100_0000_0000_0000 + b1 * 0x1_0000_0000_0000 + b2 * 0x100_0000_0000 + b3
            * 0x1_0000_0000 + b4 * 0x100_0000 + b5 * 0x1_0000 + b6 * 0x100 + b7;
        assert(word == be_word(chunk));
        assert(i as int == 8 * (i as int / 8));
        words.push(word);
        i = i + 8;
    }
    assert(words@ =~= be_words(bytes@));
    Ok(words)
}

} // verus!

//! The binary layout of a program, as mathematics: which bytes each
//! instruction is written as, and which instruction each run of bytes is read
//! as. Everything is little-endian; every integer on the wire is a signed
//! 32-bit value.

use crate::ir_definition::{Instruction, Intrinsic, Op};
use vstd::prelude::*;
use vstd::utf8::{decode_utf8, encode_utf8, valid_utf8};

verus! {

// The tags, one for each kind of instruction.
pub const TAG_NOP: i32 = 0;
pub const TAG_ICONST: i32 = 1;
pub const TAG_SCONST: i32 = 2;
pub const TAG_ADD: i32 = 3;
pub const TAG_SUB: i32 = 4;
pub const TAG_MUL: i32 = 5;
pub const TAG_DIV: i32 = 6;
pub const TAG_MOD: i32 = 7;
pub const TAG_BOR: i32 = 8;
pub const TAG_BAND: i32 = 9;
pub const TAG_XOR: i32 = 10;
pub const TAG_OR: i32 = 11;
pub const TAG_AND: i32 = 12;
pub const TAG_EQ: i32 = 13;
pub const TAG_LT: i32 = 14;
pub const TAG_GT: i32 = 15;
pub const TAG_NOT: i32 = 16;
/// Shared by both kinds of reservation.
pub const TAG_RESERVE: i32 = 17;
pub const TAG_READ: i32 = 18;
pub const TAG_WRITE: i32 = 19;
pub const TAG_ARGLOCAL_READ: i32 = 20;
pub const TAG_ARGLOCAL_WRITE: i32 = 21;
pub const TAG_LABEL: i32 = 22;
pub const TAG_JUMP: i32 = 23;
pub const TAG_BRANCHZERO: i32 = 24;
pub const TAG_FUNCTION: i32 = 25;
pub const TAG_CALL: i32 = 26;
pub const TAG_RET: i32 = 27;
pub const TAG_INTRINSIC: i32 = 28;
pub const TAG_PUSH: i32 = 29;
pub const TAG_POP: i32 = 30;

// The codes of the intrinsics.
pub const INTRINSIC_PRINT_INT: i32 = 0;
pub const INTRINSIC_PRINT_STRING: i32 = 1;
pub const INTRINSIC_EXIT: i32 = 2;

/// The size that an integer reservation declares on the wire.
pub const RESERVED_INT_SIZE: i32 = 4;

/// Why an instruction has no encoding.
#[derive(Debug, PartialEq, Eq, Clone, Copy, Structural)]
pub enum EncodeErrorKind {
    /// An integer operand lies outside the signed 32-bit range of the wire.
    IntegerOutOfRange,
    /// A text is so long that its length field would overflow.
    StringTooLong,
}

/// Why a run of bytes is not an instruction.
#[derive(Debug, PartialEq, Eq, Clone, Copy, Structural)]
pub enum DecodeErrorKind {
    /// The tag names no instruction.
    UnknownOpcode,
    /// A text's length field is zero or negative.
    BadStringLength,
    /// The bytes end inside a field.
    Truncated,
    /// A text's payload is not UTF-8, or its last byte is not NUL.
    BadString,
    /// A count, index or size is negative, an intrinsic code is unknown, or an
    /// integer reservation declares a size other than four.
    BadOperand,
}

/// The four bytes of a signed 32-bit integer, least significant first, in
/// two's complement.
#[verifier::opaque]
pub open spec fn le_bytes(x: i32) -> Seq<u8> {
    let u: int = if x < 0 {
        x + 0x1_0000_0000
    } else {
        x as int
    };
    seq![
        (u % 256) as u8,
        (u / 0x100 % 256) as u8,
        (u / 0x1_0000 % 256) as u8,
        (u / 0x100_0000 % 256) as u8,
    ]
}

/// The signed 32-bit integer that four little-endian bytes stand for.
#[verifier::opaque]
pub open spec fn le_value(b0: u8, b1: u8, b2: u8, b3: u8) -> i32 {
    let u: int = b0 + b1 * 0x100 + b2 * 0x1_0000 + b3 * 0x100_0000;
    if u >= 0x8000_0000 {
        (u - 0x1_0000_0000) as i32
    } else {
        u as i32
    }
}

/// Whether an integer fits the signed 32 bits of the wire.
pub open spec fn fits_i32(v: int) -> bool {
    i32::MIN <= v <= i32::MAX
}

/// An integer operand on the wire: its four bytes, if it is in range.
pub open spec fn encode_int(v: int) -> Result<Seq<u8>, EncodeErrorKind> {
    if fits_i32(v) {
        Ok(le_bytes(v as i32))
    } else {
        Err(EncodeErrorKind::IntegerOutOfRange)
    }
}

/// A text on the wire: the length of its UTF-8 bytes plus one, the bytes, and
/// a NUL.
pub open spec fn encode_text(text: Seq<char>) -> Result<Seq<u8>, EncodeErrorKind> {
    let raw = encode_utf8(text);
    if raw.len() + 1 <= i32::MAX {
        Ok(le_bytes((raw.len() + 1) as i32) + raw + seq![0u8])
    } else {
        Err(EncodeErrorKind::StringTooLong)
    }
}

/// The code that stands for an intrinsic on the wire.
pub open spec fn intrinsic_code(intrinsic: Intrinsic) -> i32 {
    match intrinsic {
        Intrinsic::PrintInt => INTRINSIC_PRINT_INT,
        Intrinsic::PrintString => INTRINSIC_PRINT_STRING,
        Intrinsic::Exit => INTRINSIC_EXIT,
    }
}

/// The tag that an instruction starts with.
pub open spec fn tag_of(op: Op) -> i32 {
    match op {
        Op::Nop => TAG_NOP,
        Op::Iconst(_) => TAG_ICONST,
        Op::Sconst(_) => TAG_SCONST,
        Op::Add => TAG_ADD,
        Op::Sub => TAG_SUB,
        Op::Mul => TAG_MUL,
        Op::Div => TAG_DIV,
        Op::Mod => TAG_MOD,
        Op::Bor => TAG_BOR,
        Op::Band => TAG_BAND,
        Op::Xor => TAG_XOR,
        Op::Or => TAG_OR,
        Op::And => TAG_AND,
        Op::Eq => TAG_EQ,
        Op::Lt => TAG_LT,
        Op::Gt => TAG_GT,
        Op::Not => TAG_NOT,
        Op::ReserveString { .. } => TAG_RESERVE,
        Op::ReserveInt { .. } => TAG_RESERVE,
        Op::Read(_) => TAG_READ,
        Op::Write(_) => TAG_WRITE,
        Op::ArgLocalRead(_) => TAG_ARGLOCAL_READ,
        Op::ArgLocalWrite(_) => TAG_ARGLOCAL_WRITE,
        Op::Label(_) => TAG_LABEL,
        Op::Jump(_) => TAG_JUMP,
        Op::BranchZero(_) => TAG_BRANCHZERO,
        Op::Function { .. } => TAG_FUNCTION,
        Op::Call { .. } => TAG_CALL,
        Op::Ret => TAG_RET,
        Op::Intrinsic(_) => TAG_INTRINSIC,
        Op::Push { .. } => TAG_PUSH,
        Op::Pop { .. } => TAG_POP,
    }
}

impl Intrinsic {
    /// The code that stands for the intrinsic on the wire.
    pub fn code(&self) -> (code: i32)
        ensures
            code == intrinsic_code(*self),
    {
        match self {
            Intrinsic::PrintInt => INTRINSIC_PRINT_INT,
            Intrinsic::PrintString => INTRINSIC_PRINT_STRING,
            Intrinsic::Exit => INTRINSIC_EXIT,
        }
    }
}

impl Instruction {
    /// The tag that the instruction starts with on the wire.
    pub fn tag(&self) -> (tag: i32)
        ensures
            tag == tag_of(self@),
    {
        match self {
            Instruction::Nop => TAG_NOP,
            Instruction::Iconst(_) => TAG_ICONST,
            Instruction::Sconst(_) => TAG_SCONST,
            Instruction::Add => TAG_ADD,
            Instruction::Sub => TAG_SUB,
            Instruction::Mul => TAG_MUL,
            Instruction::Div => TAG_DIV,
            Instruction::Mod => TAG_MOD,
            Instruction::Bor => TAG_BOR,
            Instruction::Band => TAG_BAND,
            Instruction::Xor => TAG_XOR,
            Instruction::Or => TAG_OR,
            Instruction::And => TAG_AND,
            Instruction::Eq => TAG_EQ,
            Instruction::Lt => TAG_LT,
            Instruction::Gt => TAG_GT,
            Instruction::Not => TAG_NOT,
            Instruction::ReserveString { .. } => TAG_RESERVE,
            Instruction::ReserveInt { .. } => TAG_RESERVE,
            Instruction::Read(_) => TAG_READ,
            Instruction::Write(_) => TAG_WRITE,
            Instruction::ArgLocalRead(_) => TAG_ARGLOCAL_READ,
            Instruction::ArgLocalWrite(_) => TAG_ARGLOCAL_WRITE,
            Instruction::Label(_) => TAG_LABEL,
            Instruction::Jump(_) => TAG_JUMP,
            Instruction::BranchZero(_) => TAG_BRANCHZERO,
            Instruction::Function { .. } => TAG_FUNCTION,
            Instruction::Call { .. } => TAG_CALL,
            Instruction::Ret => TAG_RET,
            Instruction::Intrinsic(_) => TAG_INTRINSIC,
            Instruction::Push { .. } => TAG_PUSH,
            Instruction::Pop { .. } => TAG_POP,
        }
    }
}

/// One field after another: the bytes of both, or the first failure.
pub open spec fn then(
    head: Result<Seq<u8>, EncodeErrorKind>,
    tail: Result<Seq<u8>, EncodeErrorKind>,
) -> Result<Seq<u8>, EncodeErrorKind> {
    match head {
        Err(kind) => Err(kind),
        Ok(first) => match tail {
            Err(kind) => Err(kind),
            Ok(second) => Ok(first + second),
        },
    }
}

/// The operands of an instruction on the wire, in order, after its tag.
#[verifier::opaque]
pub open spec fn encode_operands(op: Op) -> Result<Seq<u8>, EncodeErrorKind> {
    match op {
        Op::Iconst(value) => encode_int(value as int),
        Op::Sconst(text) => encode_text(text),
        Op::ReserveString { size, name, initial_value } => then(
            encode_text(name),
            then(encode_text(initial_value), encode_int(size as int)),
        ),
        Op::ReserveInt { name } => then(
            encode_text(name),
            Ok(le_bytes(0) + le_bytes(RESERVED_INT_SIZE)),
        ),
        Op::Read(name) => encode_text(name),
        Op::Write(name) => encode_text(name),
        Op::ArgLocalRead(index) => encode_int(index as int),
        Op::ArgLocalWrite(index) => encode_int(index as int),
        Op::Label(label) => encode_text(label),
        Op::Jump(label) => encode_text(label),
        Op::BranchZero(label) => encode_text(label),
        Op::Function { label, num_locs } => then(encode_text(label), encode_int(num_locs as int)),
        Op::Call { label, num_args } => then(encode_text(label), encode_int(num_args as int)),
        Op::Intrinsic(intrinsic) => Ok(le_bytes(intrinsic_code(intrinsic))),
        Op::Push { reg } => encode_int(reg as int),
        Op::Pop { reg } => encode_int(reg as int),
        _ => Ok(Seq::empty()),
    }
}

/// An instruction on the wire: its tag, then its operands.
pub open spec fn encode_op(op: Op) -> Result<Seq<u8>, EncodeErrorKind> {
    then(Ok(le_bytes(tag_of(op))), encode_operands(op))
}

/// Where encoding a program stops: the first instruction that has no encoding,
/// and why.
pub struct EncodeFailure {
    pub index: int,
    pub kind: EncodeErrorKind,
}

/// A program on the wire, from instruction `from` on: the instructions'
/// encodings one after another, or the first instruction that has none.
pub open spec fn encode_from(ops: Seq<Op>, from: int) -> Result<Seq<u8>, EncodeFailure>
    decreases ops.len() - from,
{
    if from < 0 || from >= ops.len() {
        Ok(Seq::empty())
    } else {
        match encode_op(ops[from]) {
            Err(kind) => Err(EncodeFailure { index: from, kind }),
            Ok(bytes) => match encode_from(ops, from + 1) {
                Err(failure) => Err(failure),
                Ok(rest) => Ok(bytes + rest),
            },
        }
    }
}

/// A whole program on the wire.
pub open spec fn encode_program(ops: Seq<Op>) -> Result<Seq<u8>, EncodeFailure> {
    encode_from(ops, 0)
}

/// Where reading stops, and why: the offset is that of the field that could
/// not be read.
pub struct DecodeFailure {
    pub kind: DecodeErrorKind,
    pub offset: int,
}

/// The failure of that kind at that offset.
pub open spec fn failure<T>(kind: DecodeErrorKind, offset: int) -> Result<T, DecodeFailure> {
    Err(DecodeFailure { kind, offset })
}

/// The integer field at `at`, and the offset behind it.
pub open spec fn decode_int(bytes: Seq<u8>, at: int) -> Result<(i32, int), DecodeFailure> {
    if 0 <= at && at + 4 <= bytes.len() {
        Ok((le_value(bytes[at], bytes[at + 1], bytes[at + 2], bytes[at + 3]), at + 4))
    } else {
        failure(DecodeErrorKind::Truncated, at)
    }
}

/// The count, index or size at `at`, which may not be negative.
pub open spec fn decode_count(bytes: Seq<u8>, at: int) -> Result<(u64, int), DecodeFailure> {
    match decode_int(bytes, at) {
        Err(stop) => Err(stop),
        Ok((value, next)) => if value >= 0 {
            Ok((value as u64, next))
        } else {
            failure(DecodeErrorKind::BadOperand, at)
        },
    }
}

/// The signed operand at `at`.
pub open spec fn decode_signed(bytes: Seq<u8>, at: int) -> Result<(i64, int), DecodeFailure> {
    match decode_int(bytes, at) {
        Err(stop) => Err(stop),
        Ok((value, next)) => Ok((value as i64, next)),
    }
}

/// The text at `at`: a positive length, that many bytes, of which the last is
/// NUL and the others are UTF-8.
pub open spec fn decode_text(bytes: Seq<u8>, at: int) -> Result<(Seq<char>, int), DecodeFailure> {
    match decode_int(bytes, at) {
        Err(stop) => Err(stop),
        Ok((length, start)) => {
            if length <= 0 {
                failure(DecodeErrorKind::BadStringLength, at)
            } else if start + length > bytes.len() {
                failure(DecodeErrorKind::Truncated, at)
            } else {
                let raw = bytes.subrange(start, start + length - 1);
                if valid_utf8(raw) && bytes[start + length - 1] == 0 {
                    Ok((decode_utf8(raw), start + length))
                } else {
                    failure(DecodeErrorKind::BadString, at)
                }
            }
        },
    }
}

/// The intrinsic whose code is at `at`.
pub open spec fn decode_intrinsic(bytes: Seq<u8>, at: int) -> Result<
    (Intrinsic, int),
    DecodeFailure,
> {
    match decode_int(bytes, at) {
        Err(stop) => Err(stop),
        Ok((code, next)) => {
            if code == INTRINSIC_PRINT_INT {
                Ok((Intrinsic::PrintInt, next))
            } else if code == INTRINSIC_PRINT_STRING {
                Ok((Intrinsic::PrintString, next))
            } else if code == INTRINSIC_EXIT {
                Ok((Intrinsic::Exit, next))
            } else {
                failure(DecodeErrorKind::BadOperand, at)
            }
        },
    }
}

/// A text at `at` and a count behind it.
pub open spec fn decode_text_and_count(bytes: Seq<u8>, at: int) -> Result<
    (Seq<char>, u64, int),
    DecodeFailure,
> {
    match decode_text(bytes, at) {
        Err(stop) => Err(stop),
        Ok((text, next)) => match decode_count(bytes, next) {
            Err(stop) => Err(stop),
            Ok((count, end)) => Ok((text, count, end)),
        },
    }
}

/// The operands of a reservation at `at`. A name comes first. A length of
/// zero behind it marks an integer reservation, whose size must be four;
/// anything else there is the initial text of a text reservation, with its
/// size behind it.
pub open spec fn decode_reserve(bytes: Seq<u8>, at: int) -> Result<(Op, int), DecodeFailure> {
    match decode_text(bytes, at) {
        Err(stop) => Err(stop),
        Ok((name, next)) => match decode_int(bytes, next) {
            Err(stop) => Err(stop),
            Ok((length, behind)) => if length == 0 {
                match decode_int(bytes, behind) {
                    Err(stop) => Err(stop),
                    Ok((size, end)) => if size == RESERVED_INT_SIZE {
                        Ok((Op::ReserveInt { name }, end))
                    } else {
                        failure(DecodeErrorKind::BadOperand, behind)
                    },
                }
            } else {
                match decode_text_and_count(bytes, next) {
                    Err(stop) => Err(stop),
                    Ok((initial_value, size, end)) => Ok(
                        (Op::ReserveString { size, name, initial_value }, end),
                    ),
                }
            },
        },
    }
}

/// The operands that follow the tag `tag`, read from `at`, and the
/// instruction that they make.
#[verifier::opaque]
pub open spec fn decode_operands(bytes: Seq<u8>, tag: i32, at: int) -> Result<
    (Op, int),
    DecodeFailure,
> {
    if tag == TAG_NOP {
        Ok((Op::Nop, at))
    } else if tag == TAG_ICONST {
        match decode_signed(bytes, at) {
            Err(stop) => Err(stop),
            Ok((value, end)) => Ok((Op::Iconst(value), end)),
        }
    } else if tag == TAG_SCONST {
        match decode_text(bytes, at) {
            Err(stop) => Err(stop),
            Ok((text, end)) => Ok((Op::Sconst(text), end)),
        }
    } else if tag == TAG_ADD {
        Ok((Op::Add, at))
    } else if tag == TAG_SUB {
        Ok((Op::Sub, at))
    } else if tag == TAG_MUL {
        Ok((Op::Mul, at))
    } else if tag == TAG_DIV {
        Ok((Op::Div, at))
    } else if tag == TAG_MOD {
        Ok((Op::Mod, at))
    } else if tag == TAG_BOR {
        Ok((Op::Bor, at))
    } else if tag == TAG_BAND {
        Ok((Op::Band, at))
    } else if tag == TAG_XOR {
        Ok((Op::Xor, at))
    } else if tag == TAG_OR {
        Ok((Op::Or, at))
    } else if tag == TAG_AND {
        Ok((Op::And, at))
    } else if tag == TAG_EQ {
        Ok((Op::Eq, at))
    } else if tag == TAG_LT {
        Ok((Op::Lt, at))
    } else if tag == TAG_GT {
        Ok((Op::Gt, at))
    } else if tag == TAG_NOT {
        Ok((Op::Not, at))
    } else if tag == TAG_RESERVE {
        decode_reserve(bytes, at)
    } else if tag == TAG_READ {
        match decode_text(bytes, at) {
            Err(stop) => Err(stop),
            Ok((name, end)) => Ok((Op::Read(name), end)),
        }
    } else if tag == TAG_WRITE {
        match decode_text(bytes, at) {
            Err(stop) => Err(stop),
            Ok((name, end)) => Ok((Op::Write(name), end)),
        }
    } else if tag == TAG_ARGLOCAL_READ {
        match decode_count(bytes, at) {
            Err(stop) => Err(stop),
            Ok((index, end)) => Ok((Op::ArgLocalRead(index), end)),
        }
    } else if tag == TAG_ARGLOCAL_WRITE {
        match decode_count(bytes, at) {
            Err(stop) => Err(stop),
            Ok((index, end)) => Ok((Op::ArgLocalWrite(index), end)),
        }
    } else if tag == TAG_LABEL {
        match decode_text(bytes, at) {
            Err(stop) => Err(stop),
            Ok((label, end)) => Ok((Op::Label(label), end)),
        }
    } else if tag == TAG_JUMP {
        match decode_text(bytes, at) {
            Err(stop) => Err(stop),
            Ok((label, end)) => Ok((Op::Jump(label), end)),
        }
    } else if tag == TAG_BRANCHZERO {
        match decode_text(bytes, at) {
            Err(stop) => Err(stop),
            Ok((label, end)) => Ok((Op::BranchZero(label), end)),
        }
    } else if tag == TAG_FUNCTION {
        match decode_text_and_count(bytes, at) {
            Err(stop) => Err(stop),
            Ok((label, num_locs, end)) => Ok((Op::Function { label, num_locs }, end)),
        }
    } else if tag == TAG_CALL {
        match decode_text_and_count(bytes, at) {
            Err(stop) => Err(stop),
            Ok((label, num_args, end)) => Ok((Op::Call { label, num_args }, end)),
        }
    } else if tag == TAG_RET {
        Ok((Op::Ret, at))
    } else if tag == TAG_INTRINSIC {
        match decode_intrinsic(bytes, at) {
            Err(stop) => Err(stop),
            Ok((intrinsic, end)) => Ok((Op::Intrinsic(intrinsic), end)),
        }
    } else if tag == TAG_PUSH {
        match decode_signed(bytes, at) {
            Err(stop) => Err(stop),
            Ok((reg, end)) => Ok((Op::Push { reg }, end)),
        }
    } else if tag == TAG_POP {
        match decode_signed(bytes, at) {
            Err(stop) => Err(stop),
            Ok((reg, end)) => Ok((Op::Pop { reg }, end)),
        }
    } else {
        failure(DecodeErrorKind::UnknownOpcode, at - 4)
    }
}

/// The instruction at `at`, and the offset behind it.
pub open spec fn decode_op(bytes: Seq<u8>, at: int) -> Result<(Op, int), DecodeFailure> {
    match decode_int(bytes, at) {
        Err(stop) => Err(stop),
        Ok((tag, next)) => decode_operands(bytes, tag, next),
    }
}

/// The instructions from `at` to the end of the bytes, or the first field
/// that cannot be read.
pub open spec fn decode_from(bytes: Seq<u8>, at: int) -> Result<Seq<Op>, DecodeFailure>
    decreases bytes.len() - at,
{
    if at < 0 || at >= bytes.len() {
        Ok(Seq::empty())
    } else {
        match decode_op(bytes, at) {
            Err(stop) => Err(stop),
            Ok((op, next)) => if next <= at || next > bytes.len() {
                // Never the case: an instruction is at least its tag, and
                // every field lies within the bytes.
                failure(DecodeErrorKind::Truncated, at)
            } else {
                match decode_from(bytes, next) {
                    Err(stop) => Err(stop),
                    Ok(rest) => Ok(seq![op] + rest),
                }
            },
        }
    }
}

/// The program that a run of bytes holds.
pub open spec fn decode_program(bytes: Seq<u8>) -> Result<Seq<Op>, DecodeFailure> {
    decode_from(bytes, 0)
}

} // verus!

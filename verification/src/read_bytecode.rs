//! Reading a program from its binary form.

use crate::ir_definition::{program_view, Instruction, Intrinsic, Label, Op};
use crate::wire_format::{
    decode_count, decode_from, decode_int, decode_intrinsic, decode_op, decode_operands,
    decode_program, decode_reserve, decode_signed, decode_text, decode_text_and_count, le_value,
    DecodeErrorKind, DecodeFailure, INTRINSIC_EXIT, INTRINSIC_PRINT_INT, INTRINSIC_PRINT_STRING,
    RESERVED_INT_SIZE, TAG_ADD, TAG_AND, TAG_ARGLOCAL_READ, TAG_ARGLOCAL_WRITE, TAG_BAND, TAG_BOR,
    TAG_BRANCHZERO, TAG_CALL, TAG_DIV, TAG_EQ, TAG_FUNCTION, TAG_GT, TAG_ICONST, TAG_INTRINSIC,
    TAG_JUMP, TAG_LABEL, TAG_LT, TAG_MOD, TAG_MUL, TAG_NOP, TAG_NOT, TAG_OR, TAG_POP, TAG_PUSH,
    TAG_READ, TAG_RESERVE, TAG_RET, TAG_SCONST, TAG_SUB, TAG_WRITE, TAG_XOR,
};
use vstd::prelude::*;
use vstd::slice::slice_subrange;
use vstd::utf8::{encode_utf8, encode_utf8_decode_utf8, valid_utf8};

verus! {

/// Why bytes could not be read as a program, and where.
#[derive(Debug, PartialEq, Eq, Clone, Copy)]
pub struct DecodeError {
    pub kind: DecodeErrorKind,
    /// The offset of the field that could not be read.
    pub offset: usize,
}

/// Whether an error tells of the failure that the wire format defines.
pub open spec fn tells(error: DecodeError, stop: DecodeFailure) -> bool {
    error.kind == stop.kind && error.offset == stop.offset
}

/// What a reader returns: the value that the wire format defines, with the
/// offset behind it, or the failure that it defines.
pub open spec fn read_as<T: View>(
    result: Result<(T, usize), DecodeError>,
    expected: Result<(T::V, int), DecodeFailure>,
) -> bool {
    match expected {
        Ok((value, next)) => result matches Ok((read, behind)) && read@ == value && behind == next,
        Err(stop) => result matches Err(error) && tells(error, stop),
    }
}

/// `core::str::from_utf8`: the text that the bytes are the UTF-8 form of, if
/// they are UTF-8 at all.
#[verifier::external_body]
pub(crate) fn utf8_text(bytes: &[u8]) -> (text: Option<&str>)
    ensures
        text is Some <==> valid_utf8(bytes@),
        text matches Some(t) ==> encode_utf8(t@) == bytes@,
{
    match core::str::from_utf8(bytes) {
        Ok(text) => Some(text),
        Err(_) => None,
    }
}

/// Reads the integer field at `at`.
pub fn read_i32(bytes: &[u8], at: usize) -> (result: Result<(i32, usize), DecodeError>)
    ensures
        read_as(result, decode_int(bytes@, at as int)),
        result matches Ok((_, behind)) ==> at < behind <= bytes@.len(),
{
    if bytes.len() < 4 || at > bytes.len() - 4 {
        return Err(DecodeError { kind: DecodeErrorKind::Truncated, offset: at });
    }
    proof {
        reveal(le_value);
    }
    let unsigned: u32 = bytes[at] as u32 + bytes[at + 1] as u32 * 0x100 + bytes[at + 2] as u32
        * 0x1_0000 + bytes[at + 3] as u32 * 0x100_0000;
    let value: i32 = if unsigned >= 0x8000_0000 {
        (unsigned as i64 - 0x1_0000_0000) as i32
    } else {
        unsigned as i32
    };
    Ok((value, at + 4))
}

/// Reads the count, index or size at `at`.
pub fn read_u64(bytes: &[u8], at: usize) -> (result: Result<(u64, usize), DecodeError>)
    ensures
        read_as(result, decode_count(bytes@, at as int)),
        result matches Ok((_, behind)) ==> at < behind <= bytes@.len(),
{
    match read_i32(bytes, at) {
        Err(error) => Err(error),
        Ok((value, behind)) => {
            if value >= 0 {
                Ok((value as u64, behind))
            } else {
                Err(DecodeError { kind: DecodeErrorKind::BadOperand, offset: at })
            }
        },
    }
}

/// Reads the signed operand at `at`.
pub fn read_i64(bytes: &[u8], at: usize) -> (result: Result<(i64, usize), DecodeError>)
    ensures
        read_as(result, decode_signed(bytes@, at as int)),
        result matches Ok((_, behind)) ==> at < behind <= bytes@.len(),
{
    match read_i32(bytes, at) {
        Err(error) => Err(error),
        Ok((value, behind)) => Ok((value as i64, behind)),
    }
}

/// Reads the text at `at`.
pub fn read_str(bytes: &[u8], at: usize) -> (result: Result<(String, usize), DecodeError>)
    ensures
        read_as(result, decode_text(bytes@, at as int)),
        result matches Ok((_, behind)) ==> at < behind <= bytes@.len(),
{
    match read_i32(bytes, at) {
        Err(error) => Err(error),
        Ok((length, start)) => {
            if length <= 0 {
                return Err(DecodeError { kind: DecodeErrorKind::BadStringLength, offset: at });
            }
            let length = length as usize;
            if length > bytes.len() - start {
                return Err(DecodeError { kind: DecodeErrorKind::Truncated, offset: at });
            }
            let end = start + length;
            let raw = slice_subrange(bytes, start, end - 1);
            match utf8_text(raw) {
                None => Err(DecodeError { kind: DecodeErrorKind::BadString, offset: at }),
                Some(text) => {
                    if bytes[end - 1] != 0 {
                        return Err(DecodeError { kind: DecodeErrorKind::BadString, offset: at });
                    }
                    proof {
                        encode_utf8_decode_utf8(text@);
                    }
                    Ok((text.to_owned(), end))
                },
            }
        },
    }
}

impl View for Intrinsic {
    type V = Intrinsic;

    open spec fn view(&self) -> Intrinsic {
        *self
    }
}

impl Intrinsic {
    /// Reads the intrinsic whose code is at `at`.
    pub fn read_bytecode(bytes: &[u8], at: usize) -> (result: Result<
        (Intrinsic, usize),
        DecodeError,
    >)
        ensures
            read_as(result, decode_intrinsic(bytes@, at as int)),
            result matches Ok((_, behind)) ==> at < behind <= bytes@.len(),
    {
        match read_i32(bytes, at) {
            Err(error) => Err(error),
            Ok((code, behind)) => {
                if code == INTRINSIC_PRINT_INT {
                    Ok((Intrinsic::PrintInt, behind))
                } else if code == INTRINSIC_PRINT_STRING {
                    Ok((Intrinsic::PrintString, behind))
                } else if code == INTRINSIC_EXIT {
                    Ok((Intrinsic::Exit, behind))
                } else {
                    Err(DecodeError { kind: DecodeErrorKind::BadOperand, offset: at })
                }
            },
        }
    }
}

impl Label {
    /// Reads the label whose name is the text at `at`.
    pub fn read_bytecode(bytes: &[u8], at: usize) -> (result: Result<(Label, usize), DecodeError>)
        ensures
            read_as(result, decode_text(bytes@, at as int)),
            result matches Ok((_, behind)) ==> at < behind <= bytes@.len(),
    {
        match read_str(bytes, at) {
            Err(error) => Err(error),
            Ok((name, behind)) => Ok((Label::named(name.as_str()), behind)),
        }
    }
}

/// Reads a text at `at` and a count behind it.
fn read_text_and_count(bytes: &[u8], at: usize) -> (result: Result<
    (String, u64, usize),
    DecodeError,
>)
    ensures
        match decode_text_and_count(bytes@, at as int) {
            Ok((text, count, next)) => result matches Ok((read, number, behind)) && read@ == text
                && number == count && behind == next,
            Err(stop) => result matches Err(error) && tells(error, stop),
        },
        result matches Ok((_, _, behind)) ==> at < behind <= bytes@.len(),
{
    match read_str(bytes, at) {
        Err(error) => Err(error),
        Ok((text, next)) => match read_u64(bytes, next) {
            Err(error) => Err(error),
            Ok((count, behind)) => Ok((text, count, behind)),
        },
    }
}

/// Reads the operands of a reservation, which start at `at`.
fn read_reserve(bytes: &[u8], at: usize) -> (result: Result<(Instruction, usize), DecodeError>)
    ensures
        read_as(result, decode_reserve(bytes@, at as int)),
        result matches Ok((_, behind)) ==> at < behind <= bytes@.len(),
{
    match read_str(bytes, at) {
        Err(error) => Err(error),
        Ok((name, next)) => match read_i32(bytes, next) {
            Err(error) => Err(error),
            Ok((length, behind)) => {
                if length == 0 {
                    match read_i32(bytes, behind) {
                        Err(error) => Err(error),
                        Ok((size, end)) => {
                            if size == RESERVED_INT_SIZE {
                                Ok((Instruction::ReserveInt { name }, end))
                            } else {
                                Err(
                                    DecodeError {
                                        kind: DecodeErrorKind::BadOperand,
                                        offset: behind,
                                    },
                                )
                            }
                        },
                    }
                } else {
                    match read_text_and_count(bytes, next) {
                        Err(error) => Err(error),
                        Ok((initial_value, size, end)) => Ok(
                            (Instruction::ReserveString { size, name, initial_value }, end),
                        ),
                    }
                }
            },
        },
    }
}

/// Reads the operands that follow the tag `tag`, which start at `at`.
fn read_operands(bytes: &[u8], tag: i32, at: usize) -> (result: Result<
    (Instruction, usize),
    DecodeError,
>)
    requires
        4 <= at <= bytes@.len(),
    ensures
        read_as(result, decode_operands(bytes@, tag, at as int)),
        result matches Ok((_, behind)) ==> at <= behind <= bytes@.len(),
{
    proof {
        reveal(decode_operands);
    }
    if tag == TAG_NOP {
        Ok((Instruction::Nop, at))
    } else if tag == TAG_ICONST {
        match read_i64(bytes, at) {
            Err(error) => Err(error),
            Ok((value, end)) => Ok((Instruction::Iconst(value), end)),
        }
    } else if tag == TAG_SCONST {
        match read_str(bytes, at) {
            Err(error) => Err(error),
            Ok((text, end)) => Ok((Instruction::Sconst(text), end)),
        }
    } else if tag == TAG_ADD {
        Ok((Instruction::Add, at))
    } else if tag == TAG_SUB {
        Ok((Instruction::Sub, at))
    } else if tag == TAG_MUL {
        Ok((Instruction::Mul, at))
    } else if tag == TAG_DIV {
        Ok((Instruction::Div, at))
    } else if tag == TAG_MOD {
        Ok((Instruction::Mod, at))
    } else if tag == TAG_BOR {
        Ok((Instruction::Bor, at))
    } else if tag == TAG_BAND {
        Ok((Instruction::Band, at))
    } else if tag == TAG_XOR {
        Ok((Instruction::Xor, at))
    } else if tag == TAG_OR {
        Ok((Instruction::Or, at))
    } else if tag == TAG_AND {
        Ok((Instruction::And, at))
    } else if tag == TAG_EQ {
        Ok((Instruction::Eq, at))
    } else if tag == TAG_LT {
        Ok((Instruction::Lt, at))
    } else if tag == TAG_GT {
        Ok((Instruction::Gt, at))
    } else if tag == TAG_NOT {
        Ok((Instruction::Not, at))
    } else if tag == TAG_RESERVE {
        read_reserve(bytes, at)
    } else if tag == TAG_READ {
        match read_str(bytes, at) {
            Err(error) => Err(error),
            Ok((name, end)) => Ok((Instruction::Read(name), end)),
        }
    } else if tag == TAG_WRITE {
        match read_str(bytes, at) {
            Err(error) => Err(error),
            Ok((name, end)) => Ok((Instruction::Write(name), end)),
        }
    } else if tag == TAG_ARGLOCAL_READ {
        match read_u64(bytes, at) {
            Err(error) => Err(error),
            Ok((index, end)) => Ok((Instruction::ArgLocalRead(index), end)),
        }
    } else if tag == TAG_ARGLOCAL_WRITE {
        match read_u64(bytes, at) {
            Err(error) => Err(error),
            Ok((index, end)) => Ok((Instruction::ArgLocalWrite(index), end)),
        }
    } else if tag == TAG_LABEL {
        match Label::read_bytecode(bytes, at) {
            Err(error) => Err(error),
            Ok((label, end)) => Ok((Instruction::Label(label), end)),
        }
    } else if tag == TAG_JUMP {
        match Label::read_bytecode(bytes, at) {
            Err(error) => Err(error),
            Ok((label, end)) => Ok((Instruction::Jump(label), end)),
        }
    } else if tag == TAG_BRANCHZERO {
        match Label::read_bytecode(bytes, at) {
            Err(error) => Err(error),
            Ok((label, end)) => Ok((Instruction::BranchZero(label), end)),
        }
    } else if tag == TAG_FUNCTION {
        match read_text_and_count(bytes, at) {
            Err(error) => Err(error),
            Ok((name, num_locs, end)) => Ok(
                (Instruction::Function { label: Label::named(name.as_str()), num_locs }, end),
            ),
        }
    } else if tag == TAG_CALL {
        match read_text_and_count(bytes, at) {
            Err(error) => Err(error),
            Ok((name, num_args, end)) => Ok(
                (Instruction::Call { label: Label::named(name.as_str()), num_args }, end),
            ),
        }
    } else if tag == TAG_RET {
        Ok((Instruction::Ret, at))
    } else if tag == TAG_INTRINSIC {
        match Intrinsic::read_bytecode(bytes, at) {
            Err(error) => Err(error),
            Ok((intrinsic, end)) => Ok((Instruction::Intrinsic(intrinsic), end)),
        }
    } else if tag == TAG_PUSH {
        match read_i64(bytes, at) {
            Err(error) => Err(error),
            Ok((reg, end)) => Ok((Instruction::Push { reg }, end)),
        }
    } else if tag == TAG_POP {
        match read_i64(bytes, at) {
            Err(error) => Err(error),
            Ok((reg, end)) => Ok((Instruction::Pop { reg }, end)),
        }
    } else {
        Err(DecodeError { kind: DecodeErrorKind::UnknownOpcode, offset: at - 4 })
    }
}

impl Instruction {
    /// Reads the instruction at `at`: its tag, then the operands that the tag
    /// calls for.
    pub fn read_bytecode(bytes: &[u8], at: usize) -> (result: Result<
        (Instruction, usize),
        DecodeError,
    >)
        ensures
            read_as(result, decode_op(bytes@, at as int)),
            result matches Ok((_, behind)) ==> at < behind <= bytes@.len(),
    {
        match read_i32(bytes, at) {
            Err(error) => Err(error),
            Ok((tag, next)) => read_operands(bytes, tag, next),
        }
    }
}

/// What a program is, given the instructions already read and what the rest
/// of the bytes holds.
pub open spec fn before(done: Seq<Op>, rest: Result<Seq<Op>, DecodeFailure>) -> Result<
    Seq<Op>,
    DecodeFailure,
> {
    match rest {
        Ok(ops) => Ok(done + ops),
        Err(stop) => Err(stop),
    }
}

/// Reads a program: one instruction after another until the bytes end. The
/// first field that cannot be read fails the whole.
pub fn read_bytecode(bytes: &[u8]) -> (result: Result<Vec<Instruction>, DecodeError>)
    ensures
        match decode_program(bytes@) {
            Ok(ops) => result matches Ok(program) && program_view(program@) == ops,
            Err(stop) => result matches Err(error) && tells(error, stop),
        },
{
    let mut program: Vec<Instruction> = Vec::new();
    let mut at: usize = 0;
    proof {
        assert(program_view(program@) =~= Seq::empty());
        assert(forall|ops: Seq<Op>| Seq::<Op>::empty() + ops =~= ops);
    }
    while at < bytes.len()
        invariant
            at <= bytes.len(),
            decode_program(bytes@) == before(program_view(program@), decode_from(bytes@, at as int)),
        decreases bytes.len() - at,
    {
        let ghost done = program_view(program@);
        match Instruction::read_bytecode(bytes, at) {
            Err(error) => {
                return Err(error);
            },
            Ok((instruction, next)) => {
                proof {
                    let op = instruction@;
                    assert(program_view(program@.push(instruction)) =~= done.push(op));
                    match decode_from(bytes@, next as int) {
                        Ok(rest) => {
                            assert(done.push(op) + rest =~= done + (seq![op] + rest));
                        },
                        Err(_) => {},
                    }
                }
                program.push(instruction);
                at = next;
            },
        }
    }
    proof {
        assert(program_view(program@) + Seq::<Op>::empty() =~= program_view(program@));
    }
    Ok(program)
}

} // verus!

//! Writing a program in its binary form.

use crate::ir_definition::{program_view, Instruction, Intrinsic, Label};
use crate::wire_format::{
    encode_from, encode_int, encode_op, encode_operands, encode_program, encode_text,
    intrinsic_code, le_bytes, tag_of, then, EncodeErrorKind, EncodeFailure, RESERVED_INT_SIZE,
};
use vstd::prelude::*;

verus! {

/// Why a program could not be written, and at which instruction.
#[derive(Debug, PartialEq, Eq, Clone, Copy)]
pub struct EncodeError {
    /// The index of the first instruction that has no encoding.
    pub index: usize,
    pub kind: EncodeErrorKind,
}

/// What a writer leaves behind: on success `bytes` after what was there
/// before, on failure the buffer as it was, with the reason.
pub open spec fn appended(
    before: Seq<u8>,
    after: Seq<u8>,
    result: Result<(), EncodeErrorKind>,
    expected: Result<Seq<u8>, EncodeErrorKind>,
) -> bool {
    match expected {
        Ok(bytes) => result is Ok && after == before + bytes,
        Err(kind) => result == Err::<(), EncodeErrorKind>(kind) && after == before,
    }
}

/// What a writer of several fields leaves behind: as [`appended`], but a
/// failure may leave the fields before it in the buffer.
pub open spec fn extended(
    before: Seq<u8>,
    after: Seq<u8>,
    result: Result<(), EncodeErrorKind>,
    expected: Result<Seq<u8>, EncodeErrorKind>,
) -> bool {
    match expected {
        Ok(bytes) => result is Ok && after == before + bytes,
        Err(kind) => result == Err::<(), EncodeErrorKind>(kind) && before.is_prefix_of(after),
    }
}

proof fn lemma_concat_assoc(a: Seq<u8>, b: Seq<u8>, c: Seq<u8>)
    ensures
        (a + b) + c == a + (b + c),
        a.is_prefix_of(a + b),
        (a + b).subrange(0, a.len() as int) == a,
{
    assert((a + b) + c =~= a + (b + c));
    assert((a + b).subrange(0, a.len() as int) =~= a);
}

/// Appends the four little-endian bytes of `value`.
pub fn write_i32(value: i32, out: &mut Vec<u8>)
    ensures
        final(out)@ == old(out)@ + le_bytes(value),
{
    let unsigned: u32 = if value < 0 {
        (value as i64 + 0x1_0000_0000) as u32
    } else {
        value as u32
    };
    let ghost before = out@;
    proof {
        reveal(le_bytes);
    }
    out.push((unsigned % 256) as u8);
    out.push((unsigned / 0x100 % 256) as u8);
    out.push((unsigned / 0x1_0000 % 256) as u8);
    out.push((unsigned / 0x100_0000 % 256) as u8);
    assert(out@ =~= before + le_bytes(value));
}

/// Appends a signed operand, which must fit the wire's 32 bits.
pub fn write_i64(value: i64, out: &mut Vec<u8>) -> (result: Result<(), EncodeErrorKind>)
    ensures
        appended(old(out)@, final(out)@, result, encode_int(value as int)),
{
    if value < -0x8000_0000 || value > 0x7fff_ffff {
        return Err(EncodeErrorKind::IntegerOutOfRange);
    }
    write_i32(value as i32, out);
    Ok(())
}

/// Appends a count, index or size, which must fit the wire's signed 32 bits.
pub fn write_u64(value: u64, out: &mut Vec<u8>) -> (result: Result<(), EncodeErrorKind>)
    ensures
        appended(old(out)@, final(out)@, result, encode_int(value as int)),
{
    if value > 0x7fff_ffff {
        return Err(EncodeErrorKind::IntegerOutOfRange);
    }
    write_i32(value as i32, out);
    Ok(())
}

/// Appends a text: its length with the terminator counted, its UTF-8 bytes,
/// and a NUL.
pub fn write_str(text: &str, out: &mut Vec<u8>) -> (result: Result<(), EncodeErrorKind>)
    ensures
        appended(old(out)@, final(out)@, result, encode_text(text@)),
{
    let raw = text.as_bytes();
    let length = raw.len();
    if length >= 0x7fff_ffff {
        return Err(EncodeErrorKind::StringTooLong);
    }
    let ghost before = out@;
    write_i32((length + 1) as i32, out);
    out.extend_from_slice(raw);
    out.push(0u8);
    assert(out@ =~= before + (le_bytes((length + 1) as i32) + raw@ + seq![0u8]));
    Ok(())
}

impl Label {
    /// Appends the label's name as a text.
    pub fn write_bytecode(&self, out: &mut Vec<u8>) -> (result: Result<(), EncodeErrorKind>)
        ensures
            appended(old(out)@, final(out)@, result, encode_text(self@)),
    {
        write_str(self.name(), out)
    }
}

impl Intrinsic {
    /// Appends the intrinsic's code.
    pub fn write_bytecode(&self, out: &mut Vec<u8>)
        ensures
            final(out)@ == old(out)@ + le_bytes(intrinsic_code(*self)),
    {
        write_i32(self.code(), out)
    }
}

/// Appends one field and then another, stopping at the first that fails.
fn write_text_and_count(text: &str, count: u64, out: &mut Vec<u8>) -> (result: Result<
    (),
    EncodeErrorKind,
>)
    ensures
        extended(
            old(out)@,
            final(out)@,
            result,
            then(encode_text(text@), encode_int(count as int)),
        ),
{
    let ghost before = out@;
    match write_str(text, out) {
        Err(kind) => Err(kind),
        Ok(()) => {
            let result = write_u64(count, out);
            proof {
                let first = encode_text(text@)->Ok_0;
                match encode_int(count as int) {
                    Ok(second) => lemma_concat_assoc(before, first, second),
                    Err(_) => lemma_concat_assoc(before, first, Seq::empty()),
                }
            }
            result
        },
    }
}

/// Appends two texts and then a count, stopping at the first that fails.
fn write_texts_and_count(first: &str, second: &str, count: u64, out: &mut Vec<u8>) -> (result:
    Result<(), EncodeErrorKind>)
    ensures
        extended(
            old(out)@,
            final(out)@,
            result,
            then(encode_text(first@), then(encode_text(second@), encode_int(count as int))),
        ),
{
    let ghost before = out@;
    match write_str(first, out) {
        Err(kind) => Err(kind),
        Ok(()) => {
            let ghost middle = out@;
            let result = write_text_and_count(second, count, out);
            proof {
                let head = encode_text(first@)->Ok_0;
                match then(encode_text(second@), encode_int(count as int)) {
                    Ok(tail) => lemma_concat_assoc(before, head, tail),
                    Err(_) => lemma_concat_assoc(before, head, Seq::empty()),
                }
            }
            result
        },
    }
}

/// Appends a text and then the two fields that mark an integer reservation:
/// a text length of zero with no payload, and the size.
fn write_text_and_int_marker(text: &str, out: &mut Vec<u8>) -> (result: Result<
    (),
    EncodeErrorKind,
>)
    ensures
        extended(
            old(out)@,
            final(out)@,
            result,
            then(encode_text(text@), Ok(le_bytes(0) + le_bytes(RESERVED_INT_SIZE))),
        ),
{
    let ghost before = out@;
    match write_str(text, out) {
        Err(kind) => Err(kind),
        Ok(()) => {
            let ghost middle = out@;
            write_i32(0, out);
            write_i32(RESERVED_INT_SIZE, out);
            proof {
                let head = encode_text(text@)->Ok_0;
                lemma_concat_assoc(middle, le_bytes(0), le_bytes(RESERVED_INT_SIZE));
                lemma_concat_assoc(before, head, le_bytes(0) + le_bytes(RESERVED_INT_SIZE));
            }
            Ok(())
        },
    }
}

impl Instruction {
    /// Appends the instruction's operands, in order.
    fn write_operands(&self, out: &mut Vec<u8>) -> (result: Result<(), EncodeErrorKind>)
        ensures
            extended(old(out)@, final(out)@, result, encode_operands(self@)),
    {
        let ghost before = out@;
        proof {
            reveal(encode_operands);
            lemma_concat_assoc(before, Seq::empty(), Seq::empty());
            assert(before + Seq::<u8>::empty() =~= before);
        }
        match self {
            Instruction::Iconst(value) => write_i64(*value, out),
            Instruction::Sconst(text) => write_str(text.as_str(), out),
            Instruction::ReserveString { size, name, initial_value } => write_texts_and_count(
                name.as_str(),
                initial_value.as_str(),
                *size,
                out,
            ),
            Instruction::ReserveInt { name } => write_text_and_int_marker(name.as_str(), out),
            Instruction::Read(name) => write_str(name.as_str(), out),
            Instruction::Write(name) => write_str(name.as_str(), out),
            Instruction::ArgLocalRead(index) => write_u64(*index, out),
            Instruction::ArgLocalWrite(index) => write_u64(*index, out),
            Instruction::Label(label) => label.write_bytecode(out),
            Instruction::Jump(label) => label.write_bytecode(out),
            Instruction::BranchZero(label) => label.write_bytecode(out),
            Instruction::Function { label, num_locs } => write_text_and_count(
                label.name(),
                *num_locs,
                out,
            ),
            Instruction::Call { label, num_args } => write_text_and_count(
                label.name(),
                *num_args,
                out,
            ),
            Instruction::Intrinsic(intrinsic) => {
                intrinsic.write_bytecode(out);
                Ok(())
            },
            Instruction::Push { reg } => write_i64(*reg, out),
            Instruction::Pop { reg } => write_i64(*reg, out),
            _ => Ok(()),
        }
    }

    /// Appends the instruction: its tag, then its operands. An instruction
    /// with an operand that the wire cannot hold leaves the buffer as it was.
    pub fn write_bytecode(&self, out: &mut Vec<u8>) -> (result: Result<(), EncodeErrorKind>)
        ensures
            appended(old(out)@, final(out)@, result, encode_op(self@)),
    {
        let start = out.len();
        let ghost before = out@;
        write_i32(self.tag(), out);
        let ghost tagged = out@;
        let result = self.write_operands(out);
        proof {
            let tag = le_bytes(tag_of(self@));
            lemma_concat_assoc(before, tag, Seq::empty());
            match encode_operands(self@) {
                Ok(operands) => lemma_concat_assoc(before, tag, operands),
                Err(_) => {
                    assert(out@.subrange(0, start as int) =~= before);
                },
            }
        }
        if result.is_err() {
            out.truncate(start);
        }
        result
    }
}

/// What a program's encoding is, given the bytes of the instructions already
/// written and the encoding of the rest.
pub open spec fn after(done: Seq<u8>, rest: Result<Seq<u8>, EncodeFailure>) -> Result<
    Seq<u8>,
    EncodeFailure,
> {
    match rest {
        Ok(bytes) => Ok(done + bytes),
        Err(failure) => Err(failure),
    }
}

/// Whether an error tells of the failure that the wire format defines.
pub open spec fn tells(error: EncodeError, failure: EncodeFailure) -> bool {
    error.kind == failure.kind && error.index == failure.index
}

/// Appends a program in its binary form: the encoding of each instruction, in
/// order. If some instruction has an operand that the wire cannot hold,
/// nothing is appended and the first such instruction is reported.
pub fn write_bytecode(program: &[Instruction], out: &mut Vec<u8>) -> (result: Result<
    (),
    EncodeError,
>)
    ensures
        match encode_program(program_view(program@)) {
            Ok(bytes) => result is Ok && final(out)@ == old(out)@ + bytes,
            Err(failure) => result matches Err(error) && tells(error, failure) && final(out)@
                == old(out)@,
        },
{
    let start = out.len();
    let ghost before = out@;
    let ghost ops = program_view(program@);
    let ghost done: Seq<u8> = Seq::empty();
    let mut index: usize = 0;
    proof {
        lemma_concat_assoc(before, done, Seq::empty());
        assert(before + done =~= before);
        assert(forall|rest: Seq<u8>| done + rest =~= rest);
    }
    while index < program.len()
        invariant
            index <= program.len(),
            ops == program_view(program@),
            before == old(out)@,
            start == before.len(),
            out@ == before + done,
            encode_program(ops) == after(done, encode_from(ops, index as int)),
        decreases program.len() - index,
    {
        assert(ops[index as int] == program[index as int]@);
        match program[index].write_bytecode(out) {
            Err(kind) => {
                proof {
                    lemma_concat_assoc(before, done, Seq::empty());
                }
                out.truncate(start);
                return Err(EncodeError { index, kind });
            },
            Ok(()) => {
                proof {
                    let bytes = encode_op(ops[index as int])->Ok_0;
                    lemma_concat_assoc(before, done, bytes);
                    match encode_from(ops, index + 1) {
                        Ok(rest) => lemma_concat_assoc(done, bytes, rest),
                        Err(_) => {},
                    }
                    done = done + bytes;
                }
            },
        }
        index += 1;
    }
    proof {
        assert(done + Seq::<u8>::empty() =~= done);
    }
    Ok(())
}

} // verus!

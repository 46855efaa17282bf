//! What holds of the binary layout: reading is the inverse of writing.

use crate::ir_definition::{Intrinsic, Op};
use crate::wire_format::{
    decode_count, decode_from, decode_int, decode_op, decode_operands, decode_program,
    decode_reserve, decode_signed, decode_text, decode_text_and_count, encode_from, encode_int,
    encode_op, encode_operands, encode_program, encode_text, intrinsic_code, le_bytes, le_value,
    tag_of, then, DecodeFailure, EncodeErrorKind, RESERVED_INT_SIZE,
};
use vstd::prelude::*;
use vstd::utf8::{
    decode_utf8_encode_utf8, encode_utf8, encode_utf8_decode_utf8, encode_utf8_valid_utf8,
};

verus! {

/// `part` stands in `bytes` at offset `at`.
pub open spec fn holds_at(bytes: Seq<u8>, at: int, part: Seq<u8>) -> bool {
    &&& 0 <= at
    &&& at + part.len() <= bytes.len()
    &&& bytes.subrange(at, at + part.len()) == part
}

proof fn lemma_holds_at_split(bytes: Seq<u8>, at: int, first: Seq<u8>, second: Seq<u8>)
    requires
        holds_at(bytes, at, first + second),
    ensures
        holds_at(bytes, at, first),
        holds_at(bytes, at + first.len(), second),
{
    let whole = first + second;
    assert(bytes.subrange(at, at + first.len()) =~= whole.subrange(0, first.len() as int));
    assert(whole.subrange(0, first.len() as int) =~= first);
    assert(bytes.subrange(at + first.len(), at + first.len() + second.len())
        =~= whole.subrange(first.len() as int, whole.len() as int));
    assert(whole.subrange(first.len() as int, whole.len() as int) =~= second);
}

/// Four bytes written for an integer are read as that integer.
pub proof fn lemma_le_value_of_bytes(x: i32)
    ensures
        le_bytes(x).len() == 4,
        le_value(le_bytes(x)[0], le_bytes(x)[1], le_bytes(x)[2], le_bytes(x)[3]) == x,
{
    reveal(le_bytes);
    reveal(le_value);
}

/// The integer read from four bytes is written as those four bytes.
pub proof fn lemma_le_bytes_of_value(b0: u8, b1: u8, b2: u8, b3: u8)
    ensures
        le_bytes(le_value(b0, b1, b2, b3)) == seq![b0, b1, b2, b3],
{
    reveal(le_bytes);
    reveal(le_value);
    let high: int = b1 + b2 * 0x100 + b3 * 0x1_0000;
    let higher: int = b2 + b3 * 0x100;
    let u: int = b0 + high * 0x100;
    assert(u == b0 + b1 * 0x100 + b2 * 0x1_0000 + b3 * 0x100_0000);
    assert(u % 256 == b0 && u / 0x100 == high);
    assert(high % 256 == b1 && high / 0x100 == higher);
    assert(higher % 256 == b2 && higher / 0x100 == b3);
    assert(u / 0x1_0000 == higher);
    assert(u / 0x100_0000 == b3);
    let x = le_value(b0, b1, b2, b3);
    assert((if x < 0 {
        x + 0x1_0000_0000
    } else {
        x as int
    }) == u);
    assert(le_bytes(x) =~= seq![b0, b1, b2, b3]);
}

proof fn lemma_int_at(x: i32, bytes: Seq<u8>, at: int)
    requires
        holds_at(bytes, at, le_bytes(x)),
    ensures
        decode_int(bytes, at) == Ok::<(i32, int), DecodeFailure>((x, at + 4)),
{
    lemma_le_value_of_bytes(x);
    let part = bytes.subrange(at, at + 4);
    assert(part[0] == bytes[at] && part[1] == bytes[at + 1] && part[2] == bytes[at + 2] && part[3]
        == bytes[at + 3]);
}

proof fn lemma_count_at(v: u64, bytes: Seq<u8>, at: int)
    requires
        encode_int(v as int) matches Ok(part) && holds_at(bytes, at, part),
    ensures
        decode_count(bytes, at) == Ok::<(u64, int), DecodeFailure>((v, at + 4)),
        encode_int(v as int)->Ok_0.len() == 4,
{
    lemma_le_value_of_bytes(v as i32);
    lemma_int_at(v as i32, bytes, at);
}

proof fn lemma_signed_at(v: i64, bytes: Seq<u8>, at: int)
    requires
        encode_int(v as int) matches Ok(part) && holds_at(bytes, at, part),
    ensures
        decode_signed(bytes, at) == Ok::<(i64, int), DecodeFailure>((v, at + 4)),
        encode_int(v as int)->Ok_0.len() == 4,
{
    lemma_le_value_of_bytes(v as i32);
    lemma_int_at(v as i32, bytes, at);
}

proof fn lemma_text_at(text: Seq<char>, bytes: Seq<u8>, at: int)
    requires
        encode_text(text) matches Ok(part) && holds_at(bytes, at, part),
    ensures
        decode_text(bytes, at) == Ok::<(Seq<char>, int), DecodeFailure>(
            (text, at + encode_text(text)->Ok_0.len()),
        ),
        encode_text(text)->Ok_0.len() == encode_utf8(text).len() + 5,
        decode_int(bytes, at) == Ok::<(i32, int), DecodeFailure>(
            ((encode_utf8(text).len() + 1) as i32, at + 4),
        ),
{
    let raw = encode_utf8(text);
    let length = (raw.len() + 1) as i32;
    lemma_le_value_of_bytes(length);
    lemma_holds_at_split(bytes, at, le_bytes(length) + raw, seq![0u8]);
    lemma_holds_at_split(bytes, at, le_bytes(length), raw);
    lemma_int_at(length, bytes, at);
    encode_utf8_valid_utf8(text);
    encode_utf8_decode_utf8(text);
    let tail = bytes.subrange(at + 4 + raw.len(), at + 4 + raw.len() + 1);
    assert(tail[0] == bytes[at + 4 + raw.len()]);
    assert(bytes.subrange(at + 4, at + 4 + length - 1) == raw);
}

proof fn lemma_text_and_count_at(text: Seq<char>, count: u64, bytes: Seq<u8>, at: int)
    requires
        then(encode_text(text), encode_int(count as int)) matches Ok(part) && holds_at(
            bytes,
            at,
            part,
        ),
    ensures
        decode_text_and_count(bytes, at) == Ok::<(Seq<char>, u64, int), DecodeFailure>(
            (
                text,
                count,
                at + then(encode_text(text), encode_int(count as int))->Ok_0.len(),
            ),
        ),
        decode_int(bytes, at) == Ok::<(i32, int), DecodeFailure>(
            ((encode_utf8(text).len() + 1) as i32, at + 4),
        ),
{
    let first = encode_text(text)->Ok_0;
    let second = encode_int(count as int)->Ok_0;
    lemma_holds_at_split(bytes, at, first, second);
    lemma_text_at(text, bytes, at);
    lemma_count_at(count, bytes, at + first.len());
}

proof fn lemma_operands_at(op: Op, bytes: Seq<u8>, at: int)
    requires
        encode_operands(op) matches Ok(part) && holds_at(bytes, at, part),
    ensures
        decode_operands(bytes, tag_of(op), at) == Ok::<(Op, int), DecodeFailure>(
            (op, at + encode_operands(op)->Ok_0.len()),
        ),
{
    reveal(encode_operands);
    reveal(decode_operands);
    match op {
        Op::Iconst(value) => lemma_signed_at(value, bytes, at),
        Op::Sconst(text) => lemma_text_at(text, bytes, at),
        Op::ReserveString { size, name, initial_value } => {
            let first = encode_text(name)->Ok_0;
            let second = then(encode_text(initial_value), encode_int(size as int))->Ok_0;
            lemma_holds_at_split(bytes, at, first, second);
            lemma_text_at(name, bytes, at);
            lemma_text_and_count_at(initial_value, size, bytes, at + first.len());
        },
        Op::ReserveInt { name } => {
            let first = encode_text(name)->Ok_0;
            lemma_le_value_of_bytes(0);
            lemma_le_value_of_bytes(RESERVED_INT_SIZE);
            lemma_holds_at_split(bytes, at, first, le_bytes(0) + le_bytes(RESERVED_INT_SIZE));
            lemma_holds_at_split(
                bytes,
                at + first.len(),
                le_bytes(0),
                le_bytes(RESERVED_INT_SIZE),
            );
            lemma_text_at(name, bytes, at);
            lemma_int_at(0, bytes, at + first.len());
            lemma_int_at(RESERVED_INT_SIZE, bytes, at + first.len() + 4);
        },
        Op::Read(name) => lemma_text_at(name, bytes, at),
        Op::Write(name) => lemma_text_at(name, bytes, at),
        Op::ArgLocalRead(index) => lemma_count_at(index, bytes, at),
        Op::ArgLocalWrite(index) => lemma_count_at(index, bytes, at),
        Op::Label(label) => lemma_text_at(label, bytes, at),
        Op::Jump(label) => lemma_text_at(label, bytes, at),
        Op::BranchZero(label) => lemma_text_at(label, bytes, at),
        Op::Function { label, num_locs } => lemma_text_and_count_at(label, num_locs, bytes, at),
        Op::Call { label, num_args } => lemma_text_and_count_at(label, num_args, bytes, at),
        Op::Intrinsic(intrinsic) => {
            lemma_le_value_of_bytes(intrinsic_code(intrinsic));
            lemma_int_at(intrinsic_code(intrinsic), bytes, at);
        },
        Op::Push { reg } => lemma_signed_at(reg, bytes, at),
        Op::Pop { reg } => lemma_signed_at(reg, bytes, at),
        _ => {},
    }
}

/// An instruction's encoding, wherever it stands in a run of bytes, is read
/// there as that instruction, and reading ends where the encoding ends.
pub proof fn lemma_op_at(op: Op, bytes: Seq<u8>, at: int)
    requires
        encode_op(op) matches Ok(part) && holds_at(bytes, at, part),
    ensures
        decode_op(bytes, at) == Ok::<(Op, int), DecodeFailure>(
            (op, at + encode_op(op)->Ok_0.len()),
        ),
        encode_op(op)->Ok_0.len() >= 4,
{
    let tag = le_bytes(tag_of(op));
    let operands = encode_operands(op)->Ok_0;
    lemma_le_value_of_bytes(tag_of(op));
    lemma_holds_at_split(bytes, at, tag, operands);
    lemma_int_at(tag_of(op), bytes, at);
    lemma_operands_at(op, bytes, at + 4);
}

/// Writing an instruction and reading the bytes gives the instruction back,
/// with nothing left over: every operand comes back as it was.
pub proof fn lemma_read_inverts_write_op(op: Op)
    ensures
        encode_op(op) matches Ok(bytes) ==> decode_op(bytes, 0) == Ok::<(Op, int), DecodeFailure>(
            (op, bytes.len() as int),
        ),
{
    if let Ok(bytes) = encode_op(op) {
        assert(bytes.subrange(0, bytes.len() as int) =~= bytes);
        lemma_op_at(op, bytes, 0);
    }
}

proof fn lemma_program_at(ops: Seq<Op>, from: int, bytes: Seq<u8>, at: int)
    requires
        0 <= from <= ops.len(),
        encode_from(ops, from) matches Ok(part) && holds_at(bytes, at, part) && at + part.len()
            == bytes.len(),
    ensures
        decode_from(bytes, at) == Ok::<Seq<Op>, DecodeFailure>(
            ops.subrange(from, ops.len() as int),
        ),
    decreases ops.len() - from,
{
    if from == ops.len() {
        assert(ops.subrange(from, ops.len() as int) =~= Seq::empty());
    } else {
        let first = encode_op(ops[from])->Ok_0;
        let rest = encode_from(ops, from + 1)->Ok_0;
        lemma_holds_at_split(bytes, at, first, rest);
        lemma_op_at(ops[from], bytes, at);
        lemma_program_at(ops, from + 1, bytes, at + first.len());
        assert(seq![ops[from]] + ops.subrange(from + 1, ops.len() as int) =~= ops.subrange(
            from,
            ops.len() as int,
        ));
    }
}

/// Writing a program and reading the bytes gives the program back.
pub proof fn lemma_read_inverts_write(ops: Seq<Op>)
    ensures
        encode_program(ops) matches Ok(bytes) ==> decode_program(bytes) == Ok::<
            Seq<Op>,
            DecodeFailure,
        >(ops),
{
    if let Ok(bytes) = encode_program(ops) {
        assert(bytes.subrange(0, bytes.len() as int) =~= bytes);
        lemma_program_at(ops, 0, bytes, 0);
        assert(ops.subrange(0, ops.len() as int) =~= ops);
    }
}

proof fn lemma_subrange_join(bytes: Seq<u8>, from: int, middle: int, to: int)
    requires
        0 <= from <= middle <= to <= bytes.len(),
    ensures
        bytes.subrange(from, middle) + bytes.subrange(middle, to) == bytes.subrange(from, to),
{
    assert(bytes.subrange(from, middle) + bytes.subrange(middle, to) =~= bytes.subrange(from, to));
}

proof fn lemma_int_read(bytes: Seq<u8>, at: int)
    requires
        decode_int(bytes, at) is Ok,
    ensures
        decode_int(bytes, at)->Ok_0.1 == at + 4,
        0 <= at,
        at + 4 <= bytes.len(),
        le_bytes(decode_int(bytes, at)->Ok_0.0) == bytes.subrange(at, at + 4),
{
    lemma_le_bytes_of_value(bytes[at], bytes[at + 1], bytes[at + 2], bytes[at + 3]);
    assert(bytes.subrange(at, at + 4) =~= seq![
        bytes[at],
        bytes[at + 1],
        bytes[at + 2],
        bytes[at + 3],
    ]);
}

proof fn lemma_count_read(bytes: Seq<u8>, at: int)
    requires
        decode_count(bytes, at) is Ok,
    ensures
        decode_count(bytes, at)->Ok_0.1 == at + 4,
        0 <= at,
        at + 4 <= bytes.len(),
        encode_int(decode_count(bytes, at)->Ok_0.0 as int) == Ok::<Seq<u8>, EncodeErrorKind>(
            bytes.subrange(at, at + 4),
        ),
{
    lemma_int_read(bytes, at);
}

proof fn lemma_signed_read(bytes: Seq<u8>, at: int)
    requires
        decode_signed(bytes, at) is Ok,
    ensures
        decode_signed(bytes, at)->Ok_0.1 == at + 4,
        0 <= at,
        at + 4 <= bytes.len(),
        encode_int(decode_signed(bytes, at)->Ok_0.0 as int) == Ok::<Seq<u8>, EncodeErrorKind>(
            bytes.subrange(at, at + 4),
        ),
{
    lemma_int_read(bytes, at);
}

proof fn lemma_text_read(bytes: Seq<u8>, at: int)
    requires
        decode_text(bytes, at) is Ok,
    ensures
        0 <= at,
        at + 5 <= decode_text(bytes, at)->Ok_0.1 <= bytes.len(),
        encode_text(decode_text(bytes, at)->Ok_0.0) == Ok::<Seq<u8>, EncodeErrorKind>(
            bytes.subrange(at, decode_text(bytes, at)->Ok_0.1),
        ),
        decode_int(bytes, at) is Ok,
        decode_int(bytes, at)->Ok_0.0 > 0,
{
    lemma_int_read(bytes, at);
    let length = decode_int(bytes, at)->Ok_0.0;
    let start = at + 4;
    let end = start + length;
    let raw = bytes.subrange(start, end - 1);
    decode_utf8_encode_utf8(raw);
    assert(bytes.subrange(end - 1, end) =~= seq![0u8]);
    lemma_subrange_join(bytes, at, start, end - 1);
    lemma_subrange_join(bytes, at, end - 1, end);
}

proof fn lemma_text_and_count_read(bytes: Seq<u8>, at: int)
    requires
        decode_text_and_count(bytes, at) is Ok,
    ensures
        0 <= at,
        at + 9 <= decode_text_and_count(bytes, at)->Ok_0.2 <= bytes.len(),
        then(
            encode_text(decode_text_and_count(bytes, at)->Ok_0.0),
            encode_int(decode_text_and_count(bytes, at)->Ok_0.1 as int),
        ) == Ok::<Seq<u8>, EncodeErrorKind>(
            bytes.subrange(at, decode_text_and_count(bytes, at)->Ok_0.2),
        ),
{
    lemma_text_read(bytes, at);
    let next = decode_text(bytes, at)->Ok_0.1;
    lemma_count_read(bytes, next);
    lemma_subrange_join(bytes, at, next, next + 4);
}

proof fn lemma_reserve_read(bytes: Seq<u8>, at: int)
    requires
        decode_reserve(bytes, at) is Ok,
    ensures
        0 <= at <= decode_reserve(bytes, at)->Ok_0.1 <= bytes.len(),
        tag_of(decode_reserve(bytes, at)->Ok_0.0) == crate::wire_format::TAG_RESERVE,
        encode_operands(decode_reserve(bytes, at)->Ok_0.0) == Ok::<Seq<u8>, EncodeErrorKind>(
            bytes.subrange(at, decode_reserve(bytes, at)->Ok_0.1),
        ),
{
    reveal(encode_operands);
    lemma_text_read(bytes, at);
    let next = decode_text(bytes, at)->Ok_0.1;
    lemma_int_read(bytes, next);
    if decode_int(bytes, next)->Ok_0.0 == 0 {
        lemma_int_read(bytes, next + 4);
        lemma_subrange_join(bytes, next, next + 4, next + 8);
        lemma_subrange_join(bytes, at, next, next + 8);
    } else {
        lemma_text_and_count_read(bytes, next);
        lemma_subrange_join(bytes, at, next, decode_text_and_count(bytes, next)->Ok_0.2);
    }
}

proof fn lemma_operands_read(bytes: Seq<u8>, tag: i32, at: int)
    requires
        0 <= at <= bytes.len(),
        decode_operands(bytes, tag, at) is Ok,
    ensures
        at <= decode_operands(bytes, tag, at)->Ok_0.1 <= bytes.len(),
        tag_of(decode_operands(bytes, tag, at)->Ok_0.0) == tag,
        encode_operands(decode_operands(bytes, tag, at)->Ok_0.0) == Ok::<
            Seq<u8>,
            EncodeErrorKind,
        >(bytes.subrange(at, decode_operands(bytes, tag, at)->Ok_0.1)),
{
    reveal(encode_operands);
    reveal(decode_operands);
    assert(bytes.subrange(at, at) =~= Seq::empty());
    match decode_operands(bytes, tag, at)->Ok_0.0 {
        Op::Iconst(_) => lemma_signed_read(bytes, at),
        Op::Sconst(_) => lemma_text_read(bytes, at),
        Op::ReserveString { .. } => lemma_reserve_read(bytes, at),
        Op::ReserveInt { .. } => lemma_reserve_read(bytes, at),
        Op::Read(_) => lemma_text_read(bytes, at),
        Op::Write(_) => lemma_text_read(bytes, at),
        Op::ArgLocalRead(_) => lemma_count_read(bytes, at),
        Op::ArgLocalWrite(_) => lemma_count_read(bytes, at),
        Op::Label(_) => lemma_text_read(bytes, at),
        Op::Jump(_) => lemma_text_read(bytes, at),
        Op::BranchZero(_) => lemma_text_read(bytes, at),
        Op::Function { .. } => lemma_text_and_count_read(bytes, at),
        Op::Call { .. } => lemma_text_and_count_read(bytes, at),
        Op::Intrinsic(_) => lemma_int_read(bytes, at),
        Op::Push { .. } => lemma_signed_read(bytes, at),
        Op::Pop { .. } => lemma_signed_read(bytes, at),
        _ => {},
    }
}

/// Whatever is read as an instruction is the encoding of that instruction:
/// the reader accepts no other bytes for it.
pub proof fn lemma_write_inverts_read_op(bytes: Seq<u8>, at: int)
    ensures
        decode_op(bytes, at) matches Ok((op, next)) ==> at + 4 <= next <= bytes.len() && encode_op(
            op,
        ) == Ok::<Seq<u8>, EncodeErrorKind>(bytes.subrange(at, next)),
{
    if let Ok((op, next)) = decode_op(bytes, at) {
        lemma_int_read(bytes, at);
        lemma_operands_read(bytes, decode_int(bytes, at)->Ok_0.0, at + 4);
        lemma_subrange_join(bytes, at, at + 4, next);
    }
}

proof fn lemma_program_read(bytes: Seq<u8>, at: int)
    requires
        0 <= at <= bytes.len(),
    ensures
        decode_from(bytes, at) matches Ok(ops) ==> encode_from(ops, 0) == Ok::<
            Seq<u8>,
            crate::wire_format::EncodeFailure,
        >(bytes.subrange(at, bytes.len() as int)),
    decreases bytes.len() - at,
{
    if at == bytes.len() {
        assert(bytes.subrange(at, bytes.len() as int) =~= Seq::empty());
    } else if let Ok(ops) = decode_from(bytes, at) {
        lemma_write_inverts_read_op(bytes, at);
        let (op, next) = decode_op(bytes, at)->Ok_0;
        lemma_program_read(bytes, next);
        let rest = decode_from(bytes, next)->Ok_0;
        lemma_encode_from_shift(op, rest, 0);
        lemma_subrange_join(bytes, at, next, bytes.len() as int);
    }
}

/// Encoding the tail of a program does not depend on what stands before it.
proof fn lemma_encode_from_shift(op: Op, rest: Seq<Op>, from: int)
    requires
        0 <= from <= rest.len(),
    ensures
        encode_from(seq![op] + rest, from + 1) matches Ok(bytes) ==> encode_from(rest, from) == Ok::<
            Seq<u8>,
            crate::wire_format::EncodeFailure,
        >(bytes),
        encode_from(rest, from) matches Ok(bytes) ==> encode_from(seq![op] + rest, from + 1) == Ok::<
            Seq<u8>,
            crate::wire_format::EncodeFailure,
        >(bytes),
    decreases rest.len() - from,
{
    let whole = seq![op] + rest;
    if from < rest.len() {
        assert(whole[from + 1] == rest[from]);
        lemma_encode_from_shift(op, rest, from + 1);
    }
}

/// Whatever is read as a program is the encoding of that program.
pub proof fn lemma_write_inverts_read(bytes: Seq<u8>)
    ensures
        decode_program(bytes) matches Ok(ops) ==> encode_program(ops) == Ok::<
            Seq<u8>,
            crate::wire_format::EncodeFailure,
        >(bytes),
{
    lemma_program_read(bytes, 0);
    assert(bytes.subrange(0, bytes.len() as int) =~= bytes);
}

} // verus!

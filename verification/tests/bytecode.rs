use aves_ir::dump_bytecode::dump_bytecode;
use aves_ir::ir_definition::{Instruction, Intrinsic, Label};
use aves_ir::read_bytecode::{read_bytecode, DecodeError};
use aves_ir::wire_format::{DecodeErrorKind, EncodeErrorKind};
use aves_ir::write_bytecode::{write_bytecode, EncodeError};

#[test]
fn nop_is_its_tag() {
    assert_eq!(dump_bytecode(&[Instruction::Nop]), Ok(vec![0, 0, 0, 0]));
}

#[test]
fn iconst_is_tag_and_value() {
    assert_eq!(
        dump_bytecode(&[Instruction::Iconst(20)]),
        Ok(vec![1, 0, 0, 0, 20, 0, 0, 0])
    );
    assert_eq!(
        dump_bytecode(&[Instruction::Iconst(-2)]),
        Ok(vec![1, 0, 0, 0, 0xfe, 0xff, 0xff, 0xff])
    );
    assert_eq!(
        dump_bytecode(&[Instruction::Iconst(0x0102_0304)]),
        Ok(vec![1, 0, 0, 0, 4, 3, 2, 1])
    );
}

#[test]
fn text_is_length_bytes_and_nul() {
    assert_eq!(
        dump_bytecode(&[Instruction::Sconst("Hi".into())]),
        Ok(vec![2, 0, 0, 0, 3, 0, 0, 0, b'H', b'i', 0])
    );
    assert_eq!(
        dump_bytecode(&[Instruction::Label(Label::named("L0"))]),
        Ok(vec![22, 0, 0, 0, 3, 0, 0, 0, b'L', b'0', 0])
    );
    assert_eq!(
        dump_bytecode(&[Instruction::Sconst("".into())]),
        Ok(vec![2, 0, 0, 0, 1, 0, 0, 0, 0])
    );
}

#[test]
fn reservations_share_a_tag() {
    assert_eq!(
        dump_bytecode(&[Instruction::ReserveInt { name: "x".into() }]),
        Ok(vec![17, 0, 0, 0, 2, 0, 0, 0, b'x', 0, 0, 0, 0, 0, 4, 0, 0, 0])
    );
    assert_eq!(
        dump_bytecode(&[Instruction::ReserveString {
            size: 10,
            name: "x".into(),
            initial_value: "ab".into()
        }]),
        Ok(vec![17, 0, 0, 0, 2, 0, 0, 0, b'x', 0, 3, 0, 0, 0, b'a', b'b', 0, 10, 0, 0, 0])
    );
}

#[test]
fn intrinsics_are_written_by_code() {
    assert_eq!(
        dump_bytecode(&[
            Instruction::Intrinsic(Intrinsic::PrintInt),
            Instruction::Intrinsic(Intrinsic::PrintString),
            Instruction::Intrinsic(Intrinsic::Exit),
        ]),
        Ok(vec![28, 0, 0, 0, 0, 0, 0, 0, 28, 0, 0, 0, 1, 0, 0, 0, 28, 0, 0, 0, 2, 0, 0, 0])
    );
}

#[test]
fn write_appends_to_what_is_there() {
    let mut out = vec![9u8, 9];
    assert_eq!(write_bytecode(&[Instruction::Add, Instruction::Ret], &mut out), Ok(()));
    assert_eq!(out, vec![9, 9, 3, 0, 0, 0, 27, 0, 0, 0]);
}

#[test]
fn integer_out_of_range_is_refused() {
    let mut out = vec![7u8];
    let program = [
        Instruction::Add,
        Instruction::Iconst(0x8000_0000),
        Instruction::Iconst(1 << 40),
    ];
    assert_eq!(
        write_bytecode(&program, &mut out),
        Err(EncodeError { index: 1, kind: EncodeErrorKind::IntegerOutOfRange })
    );
    assert_eq!(out, vec![7u8]);
    assert_eq!(
        dump_bytecode(&[Instruction::Iconst(-0x8000_0001)]),
        Err(EncodeError { index: 0, kind: EncodeErrorKind::IntegerOutOfRange })
    );
    assert_eq!(
        dump_bytecode(&[Instruction::ArgLocalRead(u64::MAX)]),
        Err(EncodeError { index: 0, kind: EncodeErrorKind::IntegerOutOfRange })
    );
    assert_eq!(
        dump_bytecode(&[Instruction::Function { label: Label::named("f"), num_locs: 1 << 31 }]),
        Err(EncodeError { index: 0, kind: EncodeErrorKind::IntegerOutOfRange })
    );
    assert!(dump_bytecode(&[Instruction::Iconst(0x7fff_ffff)]).is_ok());
    assert!(dump_bytecode(&[Instruction::Iconst(-0x8000_0000)]).is_ok());
}

fn every_kind() -> Vec<Instruction> {
    vec![
        Instruction::Nop,
        Instruction::Iconst(-30),
        Instruction::Sconst("with \"quotes\" and \\ and \u{e9}\u{4e16}".into()),
        Instruction::Add,
        Instruction::Sub,
        Instruction::Mul,
        Instruction::Div,
        Instruction::Mod,
        Instruction::Bor,
        Instruction::Band,
        Instruction::Xor,
        Instruction::Or,
        Instruction::And,
        Instruction::Eq,
        Instruction::Lt,
        Instruction::Gt,
        Instruction::Not,
        Instruction::ReserveString { size: 12, name: "greeting".into(), initial_value: "".into() },
        Instruction::ReserveInt { name: "$counter".into() },
        Instruction::Read("greeting".into()),
        Instruction::Write("$counter".into()),
        Instruction::ArgLocalRead(0),
        Instruction::ArgLocalWrite(0x7fff_ffff),
        Instruction::Label(Label::named("L0")),
        Instruction::Jump(Label::named("L0")),
        Instruction::BranchZero(Label::named("L1")),
        Instruction::Function { label: Label::named("f"), num_locs: 3 },
        Instruction::Call { label: Label::named("f"), num_args: 2 },
        Instruction::Ret,
        Instruction::Intrinsic(Intrinsic::PrintInt),
        Instruction::Intrinsic(Intrinsic::PrintString),
        Instruction::Intrinsic(Intrinsic::Exit),
        Instruction::Push { reg: -1 },
        Instruction::Pop { reg: 0x7fff_ffff },
    ]
}

#[test]
fn reading_gives_back_what_was_written() {
    let program = every_kind();
    let bytes = dump_bytecode(&program).unwrap();
    assert_eq!(read_bytecode(&bytes), Ok(program));
    for instruction in every_kind() {
        let bytes = dump_bytecode(std::slice::from_ref(&instruction)).unwrap();
        assert_eq!(read_bytecode(&bytes), Ok(vec![instruction]));
    }
}

#[test]
fn writing_gives_back_what_was_read() {
    let bytes = vec![17, 0, 0, 0, 2, 0, 0, 0, b'x', 0, 0, 0, 0, 0, 4, 0, 0, 0, 16, 0, 0, 0];
    let program = read_bytecode(&bytes).unwrap();
    assert_eq!(program, vec![Instruction::ReserveInt { name: "x".into() }, Instruction::Not]);
    assert_eq!(dump_bytecode(&program), Ok(bytes));
}

#[test]
fn empty_bytes_are_the_empty_program() {
    assert_eq!(read_bytecode(&[]), Ok(vec![]));
    assert_eq!(dump_bytecode(&[]), Ok(vec![]));
}

#[test]
fn unknown_tag_is_refused() {
    assert_eq!(
        read_bytecode(&[0, 0, 0, 0, 31, 0, 0, 0]),
        Err(DecodeError { kind: DecodeErrorKind::UnknownOpcode, offset: 4 })
    );
    assert_eq!(
        read_bytecode(&[0xff, 0xff, 0xff, 0xff]),
        Err(DecodeError { kind: DecodeErrorKind::UnknownOpcode, offset: 0 })
    );
}

#[test]
fn text_length_must_be_positive() {
    assert_eq!(
        read_bytecode(&[2, 0, 0, 0, 0, 0, 0, 0]),
        Err(DecodeError { kind: DecodeErrorKind::BadStringLength, offset: 4 })
    );
    assert_eq!(
        read_bytecode(&[18, 0, 0, 0, 0xff, 0xff, 0xff, 0xff]),
        Err(DecodeError { kind: DecodeErrorKind::BadStringLength, offset: 4 })
    );
    // Behind a reservation's name a negative length is no marker either.
    assert_eq!(
        read_bytecode(&[17, 0, 0, 0, 2, 0, 0, 0, b'x', 0, 0xfe, 0xff, 0xff, 0xff]),
        Err(DecodeError { kind: DecodeErrorKind::BadStringLength, offset: 10 })
    );
}

#[test]
fn truncated_bytes_are_refused() {
    assert_eq!(
        read_bytecode(&[0, 0, 0]),
        Err(DecodeError { kind: DecodeErrorKind::Truncated, offset: 0 })
    );
    assert_eq!(
        read_bytecode(&[1, 0, 0, 0, 5, 0]),
        Err(DecodeError { kind: DecodeErrorKind::Truncated, offset: 4 })
    );
    assert_eq!(
        read_bytecode(&[2, 0, 0, 0, 4, 0, 0, 0, b'a', b'b']),
        Err(DecodeError { kind: DecodeErrorKind::Truncated, offset: 4 })
    );
    assert_eq!(
        read_bytecode(&[25, 0, 0, 0, 2, 0, 0, 0, b'f', 0]),
        Err(DecodeError { kind: DecodeErrorKind::Truncated, offset: 10 })
    );
}

#[test]
fn bad_text_is_refused() {
    // Not UTF-8.
    assert_eq!(
        read_bytecode(&[2, 0, 0, 0, 2, 0, 0, 0, 0xff, 0]),
        Err(DecodeError { kind: DecodeErrorKind::BadString, offset: 4 })
    );
    // No terminator.
    assert_eq!(
        read_bytecode(&[2, 0, 0, 0, 2, 0, 0, 0, b'a', b'b']),
        Err(DecodeError { kind: DecodeErrorKind::BadString, offset: 4 })
    );
}

#[test]
fn bad_operand_is_refused() {
    assert_eq!(
        read_bytecode(&[20, 0, 0, 0, 0xff, 0xff, 0xff, 0xff]),
        Err(DecodeError { kind: DecodeErrorKind::BadOperand, offset: 4 })
    );
    assert_eq!(
        read_bytecode(&[28, 0, 0, 0, 3, 0, 0, 0]),
        Err(DecodeError { kind: DecodeErrorKind::BadOperand, offset: 4 })
    );
    assert_eq!(
        read_bytecode(&[17, 0, 0, 0, 2, 0, 0, 0, b'x', 0, 0, 0, 0, 0, 8, 0, 0, 0]),
        Err(DecodeError { kind: DecodeErrorKind::BadOperand, offset: 14 })
    );
}

#[test]
fn negative_immediates_are_read_back() {
    assert_eq!(
        read_bytecode(&[30, 0, 0, 0, 0xff, 0xff, 0xff, 0xff, 1, 0, 0, 0, 0, 0, 0, 0x80]),
        Ok(vec![Instruction::Pop { reg: -1 }, Instruction::Iconst(-0x8000_0000)])
    );
}

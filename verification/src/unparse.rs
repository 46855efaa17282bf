//! The canonical text of a program: one instruction to a line, opcodes in
//! capitals, one space between the parts of an instruction.

use crate::ir_definition::{program_view, Instruction, Intrinsic, Op};
use crate::lexical::push_char;
use vstd::prelude::*;
use vstd::string::StringExecFns;

verus! {

/// The character that writes a digit.
pub open spec fn digit_char(digit: nat) -> char {
    if digit == 0 {
        '0'
    } else if digit == 1 {
        '1'
    } else if digit == 2 {
        '2'
    } else if digit == 3 {
        '3'
    } else if digit == 4 {
        '4'
    } else if digit == 5 {
        '5'
    } else if digit == 6 {
        '6'
    } else if digit == 7 {
        '7'
    } else if digit == 8 {
        '8'
    } else {
        '9'
    }
}

/// A number in decimal digits, without leading zeros.
pub open spec fn decimal(n: nat) -> Seq<char>
    decreases n,
{
    if n < 10 {
        seq![digit_char(n)]
    } else {
        decimal(n / 10).push(digit_char(n % 10))
    }
}

/// An integer in decimal digits, with a minus sign if it is negative.
pub open spec fn signed_decimal(v: int) -> Seq<char> {
    if v < 0 {
        seq!['-'] + decimal((-v) as nat)
    } else {
        decimal(v as nat)
    }
}

/// A text with a backslash before each quote and each backslash.
pub open spec fn escaped(text: Seq<char>) -> Seq<char>
    decreases text.len(),
{
    if text.len() == 0 {
        Seq::empty()
    } else if text[0] == '"' || text[0] == '\\' {
        seq!['\\', text[0]] + escaped(text.drop_first())
    } else {
        seq![text[0]] + escaped(text.drop_first())
    }
}

/// A text as a string literal.
pub open spec fn quoted(text: Seq<char>) -> Seq<char> {
    seq!['"'] + escaped(text) + seq!['"']
}

/// The name of an intrinsic.
pub open spec fn intrinsic_name(intrinsic: Intrinsic) -> Seq<char> {
    match intrinsic {
        Intrinsic::PrintInt => "PRINT_INT"@,
        Intrinsic::PrintString => "PRINT_STRING"@,
        Intrinsic::Exit => "EXIT"@,
    }
}

/// A word and, behind one space, what belongs to it.
pub open spec fn with_operand(word: Seq<char>, operand: Seq<char>) -> Seq<char> {
    word + " "@ + operand
}

/// The canonical text of an instruction.
#[verifier::opaque]
pub open spec fn printed(op: Op) -> Seq<char> {
    match op {
        Op::Nop => "NOP"@,
        Op::Iconst(value) => with_operand("ICONST"@, signed_decimal(value as int)),
        Op::Sconst(text) => with_operand("SCONST"@, quoted(text)),
        Op::Add => "ADD"@,
        Op::Sub => "SUB"@,
        Op::Mul => "MUL"@,
        Op::Div => "DIV"@,
        Op::Mod => "MOD"@,
        Op::Bor => "BOR"@,
        Op::Band => "BAND"@,
        Op::Xor => "XOR"@,
        Op::Or => "OR"@,
        Op::And => "AND"@,
        Op::Eq => "EQ"@,
        Op::Lt => "LT"@,
        Op::Gt => "GT"@,
        Op::Not => "NOT"@,
        Op::ReserveString { size, name, initial_value } => with_operand(
            "RESERVE"@,
            with_operand(name, with_operand(decimal(size as nat), quoted(initial_value))),
        ),
        Op::ReserveInt { name } => with_operand(
            "RESERVE"@,
            with_operand(name, with_operand(decimal(4), "(null)"@)),
        ),
        Op::Read(name) => with_operand("READ"@, name),
        Op::Write(name) => with_operand("WRITE"@, name),
        Op::ArgLocalRead(index) => with_operand("ARGLOCAL_READ"@, decimal(index as nat)),
        Op::ArgLocalWrite(index) => with_operand("ARGLOCAL_WRITE"@, decimal(index as nat)),
        Op::Label(label) => label + ":"@,
        Op::Jump(label) => with_operand("JUMP"@, label),
        Op::BranchZero(label) => with_operand("BRANCHZERO"@, label),
        Op::Function { label, num_locs } => with_operand(
            "FUNCTION"@,
            with_operand(label, decimal(num_locs as nat)),
        ),
        Op::Call { label, num_args } => with_operand(
            "CALL"@,
            with_operand(label, decimal(num_args as nat)),
        ),
        Op::Ret => "RET"@,
        Op::Intrinsic(intrinsic) => with_operand("INTRINSIC"@, intrinsic_name(intrinsic)),
        Op::Push { reg } => with_operand("PUSH"@, signed_decimal(reg as int)),
        Op::Pop { reg } => with_operand("POP"@, signed_decimal(reg as int)),
    }
}

/// The canonical text of a program from instruction `from` on: each
/// instruction's text and a line end behind it.
pub open spec fn printed_from(ops: Seq<Op>, from: int) -> Seq<char>
    decreases ops.len() - from,
{
    if from < 0 || from >= ops.len() {
        Seq::empty()
    } else {
        printed(ops[from]) + seq!['\n'] + printed_from(ops, from + 1)
    }
}

/// The canonical text of a program.
pub open spec fn printed_program(ops: Seq<Op>) -> Seq<char> {
    printed_from(ops, 0)
}

/// Appends a number in decimal digits.
pub fn push_decimal(text: &mut String, n: u64)
    ensures
        final(text)@ == old(text)@ + decimal(n as nat),
    decreases n,
{
    let ghost before = text@;
    if n >= 10 {
        push_decimal(text, n / 10);
    }
    let digit = n % 10;
    let c = if digit == 0 {
        '0'
    } else if digit == 1 {
        '1'
    } else if digit == 2 {
        '2'
    } else if digit == 3 {
        '3'
    } else if digit == 4 {
        '4'
    } else if digit == 5 {
        '5'
    } else if digit == 6 {
        '6'
    } else if digit == 7 {
        '7'
    } else if digit == 8 {
        '8'
    } else {
        '9'
    };
    push_char(text, c);
    proof {
        if n >= 10 {
            assert(text@ =~= before + decimal((n / 10) as nat).push(c));
        } else {
            assert(text@ =~= before + seq![c]);
        }
    }
}

/// Appends an integer in decimal digits, with its sign if it is negative.
pub fn push_signed_decimal(text: &mut String, v: i64)
    ensures
        final(text)@ == old(text)@ + signed_decimal(v as int),
{
    let ghost before = text@;
    if v < 0 {
        push_char(text, '-');
        let magnitude: u64 = if v == i64::MIN {
            0x8000_0000_0000_0000
        } else {
            (-v) as u64
        };
        push_decimal(text, magnitude);
        assert(text@ =~= before + (seq!['-'] + decimal((-v) as nat)));
    } else {
        push_decimal(text, v as u64);
    }
}

/// Appends a text as a string literal.
pub fn push_quoted(text: &mut String, value: &str)
    ensures
        final(text)@ == old(text)@ + quoted(value@),
{
    let ghost before = text@;
    let chars = crate::lexical::chars_of(value);
    push_char(text, '"');
    let mut at: usize = 0;
    proof {
        assert(chars@.subrange(0, chars@.len() as int) =~= chars@);
        assert(before.push('"') + escaped(chars@) =~= before + (seq!['"'] + escaped(chars@)));
    }
    while at < chars.len()
        invariant
            at <= chars@.len(),
            chars@ == value@,
            text@ + escaped(chars@.subrange(at as int, chars@.len() as int)) == before + (
            seq!['"'] + escaped(value@)),
        decreases chars@.len() - at,
    {
        let ghost done = text@;
        let ghost rest = chars@.subrange(at as int, chars@.len() as int);
        let c = chars[at];
        proof {
            assert(rest.drop_first() =~= chars@.subrange(at + 1, chars@.len() as int));
            assert(rest[0] == c);
        }
        if c == '"' || c == '\\' {
            push_char(text, '\\');
            push_char(text, c);
            assert(text@ + escaped(rest.drop_first()) =~= done + (seq!['\\', c] + escaped(
                rest.drop_first(),
            )));
        } else {
            push_char(text, c);
            assert(text@ + escaped(rest.drop_first()) =~= done + (seq![c] + escaped(
                rest.drop_first(),
            )));
        }
        at += 1;
    }
    proof {
        assert(chars@.subrange(at as int, chars@.len() as int) =~= Seq::<char>::empty());
        assert(text@ + Seq::<char>::empty() =~= text@);
    }
    push_char(text, '"');
    assert(text@ =~= before + quoted(value@));
}

/// Appends a word, a space, and a name.
fn push_with_name(text: &mut String, word: &str, name: &str)
    ensures
        final(text)@ == old(text)@ + with_operand(word@, name@),
{
    let ghost before = text@;
    text.append(word);
    text.append(" ");
    text.append(name);
    assert(text@ =~= before + with_operand(word@, name@));
}

/// Appends a word, a space, and a count.
fn push_with_count(text: &mut String, word: &str, count: u64)
    ensures
        final(text)@ == old(text)@ + with_operand(word@, decimal(count as nat)),
{
    let ghost before = text@;
    text.append(word);
    text.append(" ");
    push_decimal(text, count);
    assert(text@ =~= before + with_operand(word@, decimal(count as nat)));
}

/// Appends a word, a space, and a signed integer.
fn push_with_signed(text: &mut String, word: &str, value: i64)
    ensures
        final(text)@ == old(text)@ + with_operand(word@, signed_decimal(value as int)),
{
    let ghost before = text@;
    text.append(word);
    text.append(" ");
    push_signed_decimal(text, value);
    assert(text@ =~= before + with_operand(word@, signed_decimal(value as int)));
}

/// Appends a word, a space, and a string literal.
fn push_with_quoted(text: &mut String, word: &str, value: &str)
    ensures
        final(text)@ == old(text)@ + with_operand(word@, quoted(value@)),
{
    let ghost before = text@;
    text.append(word);
    text.append(" ");
    push_quoted(text, value);
    assert(text@ =~= before + with_operand(word@, quoted(value@)));
}

/// Appends an opcode, a name and a count, with a space between each two.
fn push_with_name_and_count(text: &mut String, word: &str, name: &str, count: u64)
    ensures
        final(text)@ == old(text)@ + with_operand(
            word@,
            with_operand(name@, decimal(count as nat)),
        ),
{
    let ghost before = text@;
    text.append(word);
    text.append(" ");
    push_with_count(text, name, count);
    assert(text@ =~= before + with_operand(word@, with_operand(name@, decimal(count as nat))));
}

impl Instruction {
    /// Appends the canonical text of the instruction.
    pub fn unparse(&self, text: &mut String)
        ensures
            final(text)@ == old(text)@ + printed(self@),
    {
        let ghost before = text@;
        proof {
            reveal(printed);
        }
        match self {
            Instruction::Nop => text.append("NOP"),
            Instruction::Iconst(value) => push_with_signed(text, "ICONST", *value),
            Instruction::Sconst(value) => push_with_quoted(text, "SCONST", value.as_str()),
            Instruction::Add => text.append("ADD"),
            Instruction::Sub => text.append("SUB"),
            Instruction::Mul => text.append("MUL"),
            Instruction::Div => text.append("DIV"),
            Instruction::Mod => text.append("MOD"),
            Instruction::Bor => text.append("BOR"),
            Instruction::Band => text.append("BAND"),
            Instruction::Xor => text.append("XOR"),
            Instruction::Or => text.append("OR"),
            Instruction::And => text.append("AND"),
            Instruction::Eq => text.append("EQ"),
            Instruction::Lt => text.append("LT"),
            Instruction::Gt => text.append("GT"),
            Instruction::Not => text.append("NOT"),
            Instruction::ReserveString { size, name, initial_value } => {
                text.append("RESERVE");
                text.append(" ");
                text.append(name.as_str());
                text.append(" ");
                push_decimal(text, *size);
                text.append(" ");
                push_quoted(text, initial_value.as_str());
                assert(text@ =~= before + printed(self@));
            },
            Instruction::ReserveInt { name } => {
                text.append("RESERVE");
                text.append(" ");
                text.append(name.as_str());
                text.append(" ");
                push_decimal(text, 4);
                text.append(" ");
                text.append("(null)");
                assert(text@ =~= before + printed(self@));
            },
            Instruction::Read(name) => push_with_name(text, "READ", name.as_str()),
            Instruction::Write(name) => push_with_name(text, "WRITE", name.as_str()),
            Instruction::ArgLocalRead(index) => push_with_count(text, "ARGLOCAL_READ", *index),
            Instruction::ArgLocalWrite(index) => push_with_count(text, "ARGLOCAL_WRITE", *index),
            Instruction::Label(label) => {
                text.append(label.name());
                text.append(":");
            },
            Instruction::Jump(label) => push_with_name(text, "JUMP", label.name()),
            Instruction::BranchZero(label) => push_with_name(text, "BRANCHZERO", label.name()),
            Instruction::Function { label, num_locs } => push_with_name_and_count(
                text,
                "FUNCTION",
                label.name(),
                *num_locs,
            ),
            Instruction::Call { label, num_args } => push_with_name_and_count(
                text,
                "CALL",
                label.name(),
                *num_args,
            ),
            Instruction::Ret => text.append("RET"),
            Instruction::Intrinsic(intrinsic) => {
                text.append("INTRINSIC");
                text.append(" ");
                match intrinsic {
                    Intrinsic::PrintInt => text.append("PRINT_INT"),
                    Intrinsic::PrintString => text.append("PRINT_STRING"),
                    Intrinsic::Exit => text.append("EXIT"),
                }
                assert(text@ =~= before + printed(self@));
            },
            Instruction::Push { reg } => push_with_signed(text, "PUSH", *reg),
            Instruction::Pop { reg } => push_with_signed(text, "POP", *reg),
        }
    }
}

/// The canonical text of a program: each instruction's text and a line end
/// behind it.
pub fn unparse(program: &[Instruction]) -> (text: String)
    ensures
        text@ == printed_program(program_view(program@)),
{
    let mut text = String::new();
    let ghost ops = program_view(program@);
    let mut index: usize = 0;
    proof {
        assert(forall|rest: Seq<char>| Seq::<char>::empty() + rest =~= rest);
    }
    while index < program.len()
        invariant
            index <= program.len(),
            ops == program_view(program@),
            text@ + printed_from(ops, index as int) == printed_program(ops),
        decreases program.len() - index,
    {
        let ghost done = text@;
        assert(ops[index as int] == program[index as int]@);
        program[index].unparse(&mut text);
        push_char(&mut text, '\n');
        proof {
            let line = printed(ops[index as int]);
            let rest = printed_from(ops, index + 1);
            assert(text@ + rest =~= done + (line + seq!['\n'] + rest));
        }
        index += 1;
    }
    proof {
        assert(text@ + Seq::<char>::empty() =~= text@);
    }
    text
}

} // verus!

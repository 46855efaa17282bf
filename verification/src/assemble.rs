//! The assembler: from the text of a program to its instructions.

use crate::grammar::{
    arg_local_read_at, arg_local_write_at, arithmetic_at, bare_at, between_end, block_comment_end,
    branch_zero_at, call_at, control_at, function_at, iconst_at, identifier_at, inside_string_at,
    intrinsic_at, jump_at, label_at, line_comment_end, more_nodes_at, name_and_count_operands_at,
    name_operand_at, node_at, nodes_at, parsed_as, pop_at, procedure_at, program_of, push_at,
    read_at, register_at, reserve_at, sconst_at, signed_operand_at, string_literal_at, tells,
    unsigned_operand_at, variable_at, write_at, CharClass, ParseError, ParseErrorKind,
};
use crate::grammar_laws::{lemma_between_stops, lemma_node_starts_with_name_char};
use crate::ir_definition::{program_view, Instruction, Label, Op};
use crate::lexical::{
    chars_of, intrinsic_name, keyword, literal, name, name_and_count, operands, scan_run, signed,
    skip_between, skip_within, string_text, text_of, unsigned, whole_word,
};
use vstd::prelude::*;
use vstd::string::StrSliceExecFns;

verus! {

/// What parsing one instruction returns.
pub type Node = Result<(Instruction, usize), ParseError>;

/// Parses an opcode without operands.
fn bare(input: &[char], at: usize, word: &str, instruction: Instruction) -> (result: Node)
    requires
        at <= input@.len(),
    ensures
        parsed_as(result, bare_at(input@, at as int, word@, instruction@)),
        result matches Ok((_, end)) ==> at <= end <= input@.len(),
{
    match whole_word(input, at, word) {
        Some(end) => Ok((instruction, end)),
        None => Err(ParseError { kind: ParseErrorKind::UnrecognizedKeyword, position: at }),
    }
}

/// Parses an opcode and a signed integer.
fn signed_operand(input: &[char], at: usize, word: &str) -> (result: Result<
    (i64, usize),
    ParseError,
>)
    requires
        at <= input@.len(),
    ensures
        parsed_as(result, signed_operand_at(input@, at as int, word@)),
        result matches Ok((_, end)) ==> at < end <= input@.len(),
{
    match operands(input, at, word) {
        Err(error) => Err(error),
        Ok(start) => signed(input, start),
    }
}

/// Parses an opcode and a count, index or size.
fn unsigned_operand(input: &[char], at: usize, word: &str) -> (result: Result<
    (u64, usize),
    ParseError,
>)
    requires
        at <= input@.len(),
    ensures
        parsed_as(result, unsigned_operand_at(input@, at as int, word@)),
        result matches Ok((_, end)) ==> at < end <= input@.len(),
{
    match operands(input, at, word) {
        Err(error) => Err(error),
        Ok(start) => unsigned(input, start),
    }
}

/// Parses an opcode and a name.
fn name_operand(input: &[char], at: usize, word: &str) -> (result: Result<
    (String, usize),
    ParseError,
>)
    requires
        at <= input@.len(),
    ensures
        parsed_as(result, name_operand_at(input@, at as int, word@)),
        result matches Ok((_, end)) ==> at < end <= input@.len(),
{
    match operands(input, at, word) {
        Err(error) => Err(error),
        Ok(start) => name(input, start),
    }
}

/// Parses an opcode, a name and a count.
fn name_and_count_operands(input: &[char], at: usize, word: &str) -> (result: Result<
    (String, u64, usize),
    ParseError,
>)
    requires
        at <= input@.len(),
    ensures
        match name_and_count_operands_at(input@, at as int, word@) {
            Ok(((name, count), end)) => result matches Ok((read, number, behind)) && read@ == name
                && number == count && behind == end,
            Err(failure) => result matches Err(error) && tells(error, failure),
        },
        result matches Ok((_, _, end)) ==> at < end <= input@.len(),
{
    match operands(input, at, word) {
        Err(error) => Err(error),
        Ok(start) => name_and_count(input, start),
    }
}

/// `ICONST` and a signed integer.
fn iconst(input: &[char], at: usize) -> (result: Node)
    requires
        at <= input@.len(),
    ensures
        parsed_as(result, iconst_at(input@, at as int)),
        result matches Ok((_, end)) ==> at < end <= input@.len(),
{
    match signed_operand(input, at, "ICONST") {
        Err(error) => Err(error),
        Ok((value, end)) => Ok((Instruction::Iconst(value), end)),
    }
}

/// `SCONST` and a string literal.
fn sconst(input: &[char], at: usize) -> (result: Node)
    requires
        at <= input@.len(),
    ensures
        parsed_as(result, sconst_at(input@, at as int)),
        result matches Ok((_, end)) ==> at < end <= input@.len(),
{
    match operands(input, at, "SCONST") {
        Err(error) => Err(error),
        Ok(start) => match literal(input, start) {
            Err(error) => Err(error),
            Ok((text, end)) => Ok((Instruction::Sconst(text), end)),
        },
    }
}

/// `RESERVE`, a name, a size, and a string literal or `(null)`. With a
/// literal it is a text reservation with that initial value; with `(null)` an
/// integer reservation.
fn reserve(input: &[char], at: usize) -> (result: Node)
    requires
        at <= input@.len(),
    ensures
        parsed_as(result, reserve_at(input@, at as int)),
        result matches Ok((_, end)) ==> at < end <= input@.len(),
{
    match name_and_count_operands(input, at, "RESERVE") {
        Err(error) => Err(error),
        Ok((name, size, behind)) => {
            let value = skip_within(input, behind);
            if value < input.len() && input[value] == '"' {
                match literal(input, value) {
                    Err(error) => Err(error),
                    Ok((initial_value, end)) => Ok(
                        (Instruction::ReserveString { size, name, initial_value }, end),
                    ),
                }
            } else {
                match keyword(input, value, "(null)") {
                    Some(end) => Ok((Instruction::ReserveInt { name }, end)),
                    None => Err(
                        ParseError { kind: ParseErrorKind::MissingOperand, position: value },
                    ),
                }
            }
        },
    }
}

/// `READ` and the name of a global.
fn read(input: &[char], at: usize) -> (result: Node)
    requires
        at <= input@.len(),
    ensures
        parsed_as(result, read_at(input@, at as int)),
        result matches Ok((_, end)) ==> at < end <= input@.len(),
{
    match name_operand(input, at, "READ") {
        Err(error) => Err(error),
        Ok((name, end)) => Ok((Instruction::Read(name), end)),
    }
}

/// `WRITE` and the name of a global.
fn write(input: &[char], at: usize) -> (result: Node)
    requires
        at <= input@.len(),
    ensures
        parsed_as(result, write_at(input@, at as int)),
        result matches Ok((_, end)) ==> at < end <= input@.len(),
{
    match name_operand(input, at, "WRITE") {
        Err(error) => Err(error),
        Ok((name, end)) => Ok((Instruction::Write(name), end)),
    }
}

/// `ARGLOCAL_READ` and the index of a local.
fn arg_local_read(input: &[char], at: usize) -> (result: Node)
    requires
        at <= input@.len(),
    ensures
        parsed_as(result, arg_local_read_at(input@, at as int)),
        result matches Ok((_, end)) ==> at < end <= input@.len(),
{
    match unsigned_operand(input, at, "ARGLOCAL_READ") {
        Err(error) => Err(error),
        Ok((index, end)) => Ok((Instruction::ArgLocalRead(index), end)),
    }
}

/// `ARGLOCAL_WRITE` and the index of a local.
fn arg_local_write(input: &[char], at: usize) -> (result: Node)
    requires
        at <= input@.len(),
    ensures
        parsed_as(result, arg_local_write_at(input@, at as int)),
        result matches Ok((_, end)) ==> at < end <= input@.len(),
{
    match unsigned_operand(input, at, "ARGLOCAL_WRITE") {
        Err(error) => Err(error),
        Ok((index, end)) => Ok((Instruction::ArgLocalWrite(index), end)),
    }
}

/// A name with a colon right behind it.
fn label(input: &[char], at: usize) -> (result: Node)
    requires
        at <= input@.len(),
    ensures
        parsed_as(result, label_at(input@, at as int)),
        result matches Ok((_, end)) ==> at < end <= input@.len(),
{
    let end = scan_run(input, at, CharClass::Identifier);
    if at < end && end < input.len() && input[end] == ':' {
        let name = text_of(input, at, end);
        Ok((Instruction::Label(Label::named(name.as_str())), end + 1))
    } else {
        Err(ParseError { kind: ParseErrorKind::UnrecognizedKeyword, position: at })
    }
}

/// `JUMP` and a label.
fn jump(input: &[char], at: usize) -> (result: Node)
    requires
        at <= input@.len(),
    ensures
        parsed_as(result, jump_at(input@, at as int)),
        result matches Ok((_, end)) ==> at < end <= input@.len(),
{
    match name_operand(input, at, "JUMP") {
        Err(error) => Err(error),
        Ok((name, end)) => Ok((Instruction::Jump(Label::named(name.as_str())), end)),
    }
}

/// `BRANCHZERO` and a label.
fn branch_zero(input: &[char], at: usize) -> (result: Node)
    requires
        at <= input@.len(),
    ensures
        parsed_as(result, branch_zero_at(input@, at as int)),
        result matches Ok((_, end)) ==> at < end <= input@.len(),
{
    match name_operand(input, at, "BRANCHZERO") {
        Err(error) => Err(error),
        Ok((name, end)) => Ok((Instruction::BranchZero(Label::named(name.as_str())), end)),
    }
}

/// `FUNCTION`, a label and the number of locals.
fn function(input: &[char], at: usize) -> (result: Node)
    requires
        at <= input@.len(),
    ensures
        parsed_as(result, function_at(input@, at as int)),
        result matches Ok((_, end)) ==> at < end <= input@.len(),
{
    match name_and_count_operands(input, at, "FUNCTION") {
        Err(error) => Err(error),
        Ok((name, num_locs, end)) => Ok(
            (Instruction::Function { label: Label::named(name.as_str()), num_locs }, end),
        ),
    }
}

/// `CALL`, a label and the number of arguments.
fn call(input: &[char], at: usize) -> (result: Node)
    requires
        at <= input@.len(),
    ensures
        parsed_as(result, call_at(input@, at as int)),
        result matches Ok((_, end)) ==> at < end <= input@.len(),
{
    match name_and_count_operands(input, at, "CALL") {
        Err(error) => Err(error),
        Ok((name, num_args, end)) => Ok(
            (Instruction::Call { label: Label::named(name.as_str()), num_args }, end),
        ),
    }
}

/// `INTRINSIC` and the name of an intrinsic.
fn intrinsic(input: &[char], at: usize) -> (result: Node)
    requires
        at <= input@.len(),
    ensures
        parsed_as(result, intrinsic_at(input@, at as int)),
        result matches Ok((_, end)) ==> at < end <= input@.len(),
{
    match operands(input, at, "INTRINSIC") {
        Err(error) => Err(error),
        Ok(start) => match intrinsic_name(input, start) {
            Err(error) => Err(error),
            Ok((intrinsic, end)) => {
                proof {
                    reveal_strlit("INTRINSIC");
                }
                Ok((Instruction::Intrinsic(intrinsic), end))
            },
        },
    }
}

/// `PUSH` and a register.
fn push(input: &[char], at: usize) -> (result: Node)
    requires
        at <= input@.len(),
    ensures
        parsed_as(result, push_at(input@, at as int)),
        result matches Ok((_, end)) ==> at < end <= input@.len(),
{
    match signed_operand(input, at, "PUSH") {
        Err(error) => Err(error),
        Ok((reg, end)) => Ok((Instruction::Push { reg }, end)),
    }
}

/// `POP` and a register.
fn pop(input: &[char], at: usize) -> (result: Node)
    requires
        at <= input@.len(),
    ensures
        parsed_as(result, pop_at(input@, at as int)),
        result matches Ok((_, end)) ==> at < end <= input@.len(),
{
    match signed_operand(input, at, "POP") {
        Err(error) => Err(error),
        Ok((reg, end)) => Ok((Instruction::Pop { reg }, end)),
    }
}

/// Of two failures at `at`, the one that stands.
fn deeper(failure: ParseError, next: Node, at: usize) -> (result: Node)
    ensures
        result == match next {
            Ok(found) => Ok::<(Instruction, usize), ParseError>(found),
            Err(other) => Err::<(Instruction, usize), ParseError>(
                if failure.position > at {
                    failure
                } else {
                    other
                },
            ),
        },
{
    match next {
        Ok(found) => Ok(found),
        Err(other) => if failure.position > at {
            Err(failure)
        } else {
            Err(other)
        },
    }
}

/// Constants, arithmetic, logic and comparison.
fn arithmetic(input: &[char], at: usize) -> (result: Node)
    requires
        at <= input@.len(),
    ensures
        parsed_as(result, arithmetic_at(input@, at as int)),
        result matches Ok((_, end)) ==> at < end <= input@.len(),
{
    proof {
        reveal_strlit("NOP");
        reveal_strlit("ADD");
        reveal_strlit("SUB");
        reveal_strlit("MUL");
        reveal_strlit("DIV");
        reveal_strlit("MOD");
        reveal_strlit("BOR");
        reveal_strlit("BAND");
        reveal_strlit("XOR");
        reveal_strlit("OR");
        reveal_strlit("AND");
        reveal_strlit("EQ");
        reveal_strlit("LT");
        reveal_strlit("GT");
        reveal_strlit("NOT");
    }
    let found = iconst(input, at);
    let found = match found {
        Ok(node) => Ok(node),
        Err(error) => deeper(error, sconst(input, at), at),
    };
    let found = match found {
        Ok(node) => Ok(node),
        Err(error) => deeper(error, bare(input, at, "NOP", Instruction::Nop), at),
    };
    let found = match found {
        Ok(node) => Ok(node),
        Err(error) => deeper(error, bare(input, at, "ADD", Instruction::Add), at),
    };
    let found = match found {
        Ok(node) => Ok(node),
        Err(error) => deeper(error, bare(input, at, "SUB", Instruction::Sub), at),
    };
    let found = match found {
        Ok(node) => Ok(node),
        Err(error) => deeper(error, bare(input, at, "MUL", Instruction::Mul), at),
    };
    let found = match found {
        Ok(node) => Ok(node),
        Err(error) => deeper(error, bare(input, at, "DIV", Instruction::Div), at),
    };
    let found = match found {
        Ok(node) => Ok(node),
        Err(error) => deeper(error, bare(input, at, "MOD", Instruction::Mod), at),
    };
    let found = match found {
        Ok(node) => Ok(node),
        Err(error) => deeper(error, bare(input, at, "BOR", Instruction::Bor), at),
    };
    let found = match found {
        Ok(node) => Ok(node),
        Err(error) => deeper(error, bare(input, at, "BAND", Instruction::Band), at),
    };
    let found = match found {
        Ok(node) => Ok(node),
        Err(error) => deeper(error, bare(input, at, "XOR", Instruction::Xor), at),
    };
    let found = match found {
        Ok(node) => Ok(node),
        Err(error) => deeper(error, bare(input, at, "OR", Instruction::Or), at),
    };
    let found = match found {
        Ok(node) => Ok(node),
        Err(error) => deeper(error, bare(input, at, "AND", Instruction::And), at),
    };
    let found = match found {
        Ok(node) => Ok(node),
        Err(error) => deeper(error, bare(input, at, "EQ", Instruction::Eq), at),
    };
    let found = match found {
        Ok(node) => Ok(node),
        Err(error) => deeper(error, bare(input, at, "LT", Instruction::Lt), at),
    };
    let found = match found {
        Ok(node) => Ok(node),
        Err(error) => deeper(error, bare(input, at, "GT", Instruction::Gt), at),
    };
    match found {
        Ok(node) => Ok(node),
        Err(error) => deeper(error, bare(input, at, "NOT", Instruction::Not), at),
    }
}

/// Globals and locals.
fn variable(input: &[char], at: usize) -> (result: Node)
    requires
        at <= input@.len(),
    ensures
        parsed_as(result, variable_at(input@, at as int)),
        result matches Ok((_, end)) ==> at < end <= input@.len(),
{
    let found = reserve(input, at);
    let found = match found {
        Ok(node) => Ok(node),
        Err(error) => deeper(error, read(input, at), at),
    };
    let found = match found {
        Ok(node) => Ok(node),
        Err(error) => deeper(error, write(input, at), at),
    };
    let found = match found {
        Ok(node) => Ok(node),
        Err(error) => deeper(error, arg_local_read(input, at), at),
    };
    match found {
        Ok(node) => Ok(node),
        Err(error) => deeper(error, arg_local_write(input, at), at),
    }
}

/// Labels, jumps and branches.
fn control(input: &[char], at: usize) -> (result: Node)
    requires
        at <= input@.len(),
    ensures
        parsed_as(result, control_at(input@, at as int)),
        result matches Ok((_, end)) ==> at < end <= input@.len(),
{
    let found = label(input, at);
    let found = match found {
        Ok(node) => Ok(node),
        Err(error) => deeper(error, jump(input, at), at),
    };
    match found {
        Ok(node) => Ok(node),
        Err(error) => deeper(error, branch_zero(input, at), at),
    }
}

/// Functions, calls, returns and intrinsics.
fn procedure(input: &[char], at: usize) -> (result: Node)
    requires
        at <= input@.len(),
    ensures
        parsed_as(result, procedure_at(input@, at as int)),
        result matches Ok((_, end)) ==> at < end <= input@.len(),
{
    proof {
        reveal_strlit("RET");
    }
    let found = function(input, at);
    let found = match found {
        Ok(node) => Ok(node),
        Err(error) => deeper(error, call(input, at), at),
    };
    let found = match found {
        Ok(node) => Ok(node),
        Err(error) => deeper(error, bare(input, at, "RET", Instruction::Ret), at),
    };
    match found {
        Ok(node) => Ok(node),
        Err(error) => deeper(error, intrinsic(input, at), at),
    }
}

/// Registers named by immediates.
fn register(input: &[char], at: usize) -> (result: Node)
    requires
        at <= input@.len(),
    ensures
        parsed_as(result, register_at(input@, at as int)),
        result matches Ok((_, end)) ==> at < end <= input@.len(),
{
    match push(input, at) {
        Ok(node) => Ok(node),
        Err(error) => deeper(error, pop(input, at), at),
    }
}

/// Parses one instruction at `at`: the first rule that succeeds there.
pub fn node_from(input: &[char], at: usize) -> (result: Node)
    ensures
        parsed_as(result, node_at(input@, at as int)),
        result matches Ok((_, end)) ==> at < end <= input@.len(),
{
    if at > input.len() {
        proof {
            lemma_node_starts_with_name_char(input@, at as int);
        }
        return Err(ParseError { kind: ParseErrorKind::UnrecognizedKeyword, position: at });
    }
    proof {
        reveal(node_at);
    }
    let found = arithmetic(input, at);
    let found = match found {
        Ok(node) => Ok(node),
        Err(error) => deeper(error, variable(input, at), at),
    };
    let found = match found {
        Ok(node) => Ok(node),
        Err(error) => deeper(error, control(input, at), at),
    };
    let found = match found {
        Ok(node) => Ok(node),
        Err(error) => deeper(error, procedure(input, at), at),
    };
    match found {
        Ok(node) => Ok(node),
        Err(error) => deeper(error, register(input, at), at),
    }
}

/// What a list of instructions is, given those already parsed and those that
/// follow.
pub open spec fn followed_by(done: Seq<Op>, rest: (Seq<Op>, int)) -> (Seq<Op>, int) {
    (done + rest.0, rest.1)
}

/// Parses a whole text, held as its characters, as a program.
pub fn program_from(input: &[char]) -> (result: Result<Vec<Instruction>, ParseError>)
    ensures
        match program_of(input@) {
            Ok(ops) => result matches Ok(program) && program_view(program@) == ops,
            Err(failure) => result matches Err(error) && tells(error, failure),
        },
{
    let length = input.len();
    let start = skip_between(input, 0);
    let mut program: Vec<Instruction> = Vec::new();
    proof {
        lemma_between_stops(input@, 0);
        assert(program_view(program@) =~= Seq::empty());
    }
    let mut last = match node_from(input, start) {
        Err(error) => {
            if start >= length {
                return Ok(program);
            }
            return Err(error);
        },
        Ok((first, end)) => {
            proof {
                assert(program_view(program@.push(first)) =~= seq![first@]);
            }
            program.push(first);
            end
        },
    };
    loop
        invariant
            length == input@.len(),
            start == between_end(input@, 0),
            start < last <= length,
            program@.len() > 0,
            nodes_at(input@, start as int) == followed_by(
                program_view(program@),
                more_nodes_at(input@, last as int),
            ),
        decreases length - last,
    {
        let ghost done = program_view(program@);
        let next = skip_between(input, last);
        proof {
            lemma_between_stops(input@, last as int);
            assert(done + Seq::<Op>::empty() =~= done);
        }
        if next == last {
            if next >= length {
                return Ok(program);
            }
            return Err(ParseError { kind: ParseErrorKind::TrailingInput, position: last });
        }
        match node_from(input, next) {
            Err(error) => {
                if next >= length {
                    return Ok(program);
                }
                return Err(error);
            },
            Ok((instruction, behind)) => {
                proof {
                    let op = instruction@;
                    let rest = more_nodes_at(input@, behind as int).0;
                    assert(program_view(program@.push(instruction)) =~= done.push(op));
                    assert(done.push(op) + rest =~= done + (seq![op] + rest));
                }
                program.push(instruction);
                last = behind;
            },
        }
    }
}

/// Parses one instruction at the start of `input` and returns it with the
/// rest of the input. The instruction starts with the first character: no
/// separator before it is skipped, and none behind it is consumed.
pub fn node(input: &str) -> (result: Result<(&str, Instruction), ParseError>)
    ensures
        match node_at(input@, 0) {
            Ok((op, end)) => result matches Ok((rest, instruction)) && instruction@ == op && rest@
                == input@.subrange(end, input@.len() as int),
            Err(failure) => result matches Err(error) && tells(error, failure),
        },
{
    let chars = chars_of(input);
    match node_from(chars.as_slice(), 0) {
        Err(error) => Err(error),
        Ok((instruction, end)) => Ok((input.substring_char(end, chars.len()), instruction)),
    }
}

/// Assembles a whole text: instructions parted by whitespace and comments,
/// with as much of both before the first and behind the last as there is.
/// The text is a program as a whole or not at all.
pub fn program(input: &str) -> (result: Result<Vec<Instruction>, ParseError>)
    ensures
        match program_of(input@) {
            Ok(ops) => result matches Ok(program) && program_view(program@) == ops,
            Err(failure) => result matches Err(error) && tells(error, failure),
        },
{
    let chars = chars_of(input);
    program_from(chars.as_slice())
}

/// Parses a name at the start of `input`: returns the rest of the input and
/// the name.
pub fn identifier(input: &str) -> (result: Result<(&str, &str), ParseError>)
    ensures
        match identifier_at(input@, 0) {
            Ok((name, end)) => result matches Ok((rest, found)) && found@ == name && rest@
                == input@.subrange(end, input@.len() as int),
            Err(failure) => result matches Err(error) && tells(error, failure),
        },
{
    let chars = chars_of(input);
    let end = scan_run(chars.as_slice(), 0, CharClass::Identifier);
    if end == 0 {
        return Err(ParseError { kind: ParseErrorKind::MissingOperand, position: 0 });
    }
    Ok((input.substring_char(end, chars.len()), input.substring_char(0, end)))
}

/// Reads the text inside a string literal from the start of `input`: returns
/// the rest of the input, which starts with the closing quote if there is
/// one, and the text with its escapes resolved. Where a backslash escapes
/// nothing that it may, nothing is consumed and the text is empty.
pub fn inside_string(input: &str) -> (result: Result<(&str, String), ParseError>)
    ensures
        result matches Ok((rest, text)) && match inside_string_at(input@, 0) {
            Some((inside, end)) => text@ == inside && rest@ == input@.subrange(
                end,
                input@.len() as int,
            ),
            None => text@ == Seq::<char>::empty() && rest@ == input@,
        },
{
    let chars = chars_of(input);
    match string_text(chars.as_slice(), 0) {
        Some((text, end)) => Ok((input.substring_char(end, chars.len()), text)),
        None => Ok((input, String::new())),
    }
}

/// Parses a string literal at the start of `input`: returns the rest of the
/// input and the literal's text.
pub fn string_literal(input: &str) -> (result: Result<(&str, String), ParseError>)
    ensures
        match string_literal_at(input@, 0) {
            Ok((text, end)) => result matches Ok((rest, found)) && found@ == text && rest@
                == input@.subrange(end, input@.len() as int),
            Err(failure) => result matches Err(error) && tells(error, failure),
        },
{
    let chars = chars_of(input);
    match literal(chars.as_slice(), 0) {
        Err(error) => Err(error),
        Ok((text, end)) => Ok((input.substring_char(end, chars.len()), text)),
    }
}

/// Parses a block comment at the start of `input`: returns the rest of the
/// input and what stands between `/*` and the first `*/`.
pub fn multi_line_comment(input: &str) -> (result: Result<(&str, &str), ParseError>)
    ensures
        match block_comment_end(input@, 0) {
            Some(end) => result matches Ok((rest, body)) && body@ == input@.subrange(2, end - 2)
                && rest@ == input@.subrange(end, input@.len() as int),
            None => result == Err::<(&str, &str), ParseError>(
                ParseError { kind: ParseErrorKind::UnrecognizedKeyword, position: 0 },
            ),
        },
{
    let chars = chars_of(input);
    match crate::lexical::block_comment(chars.as_slice(), 0) {
        Some(end) => Ok((input.substring_char(end, chars.len()), input.substring_char(2, end - 2))),
        None => Err(ParseError { kind: ParseErrorKind::UnrecognizedKeyword, position: 0 }),
    }
}

/// Parses a line comment at the start of `input`: returns the rest of the
/// input, which starts with the line end if there is one, and what stands
/// between `#` and the end of the line.
pub fn single_line_comment(input: &str) -> (result: Result<(&str, &str), ParseError>)
    ensures
        match line_comment_end(input@, 0) {
            Some(end) => result matches Ok((rest, body)) && body@ == input@.subrange(1, end)
                && rest@ == input@.subrange(end, input@.len() as int),
            None => result == Err::<(&str, &str), ParseError>(
                ParseError { kind: ParseErrorKind::UnrecognizedKeyword, position: 0 },
            ),
        },
{
    let chars = chars_of(input);
    match crate::lexical::line_comment(chars.as_slice(), 0) {
        Some(end) => Ok((input.substring_char(end, chars.len()), input.substring_char(1, end))),
        None => Err(ParseError { kind: ParseErrorKind::UnrecognizedKeyword, position: 0 }),
    }
}

} // verus!

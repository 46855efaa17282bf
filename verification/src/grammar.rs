//! The assembly syntax, as mathematics: what each rule of the grammar makes of
//! a text from a given position on. A text is a sequence of characters, and
//! positions count characters.

use crate::ir_definition::{Intrinsic, Op};
use vstd::prelude::*;

verus! {

/// Why a text is not what a rule asks for.
#[derive(Debug, PartialEq, Eq, Clone, Copy, Structural)]
pub enum ParseErrorKind {
    /// The text does not start with the word that the rule asks for: an
    /// opcode, a label with its colon, an intrinsic's name, a comment's opener.
    UnrecognizedKeyword,
    /// A string literal is opened and not closed before the text ends or a
    /// backslash escapes something else than a quote or a backslash; or an
    /// integer literal is out of the range of its operand.
    MalformedLiteral,
    /// A minus sign stands where a count, index or size is asked for.
    NegativeValue,
    /// An operand is asked for and none starts here.
    MissingOperand,
    /// After the last instruction something is left that no separator
    /// parts from it.
    TrailingInput,
}

/// Where a rule gives up, and why.
pub struct ParseFailure {
    pub kind: ParseErrorKind,
    pub position: int,
}

/// What a rule makes of a text from a position on: a value and the position
/// behind what the rule consumed, or a failure.
pub type Parsed<T> = Result<(T, int), ParseFailure>;

/// Why a text could not be parsed, and where.
#[derive(Debug, PartialEq, Eq, Clone, Copy)]
pub struct ParseError {
    pub kind: ParseErrorKind,
    /// The offending position, counted in characters from the start of the
    /// input.
    pub position: usize,
}

/// Whether an error tells of the failure that the grammar defines.
pub open spec fn tells(error: ParseError, failure: ParseFailure) -> bool {
    error.kind == failure.kind && error.position == failure.position
}

/// What a parser returns: the value that the grammar defines, with the
/// position behind it, or the failure that it defines.
pub open spec fn parsed_as<T: View>(
    result: Result<(T, usize), ParseError>,
    expected: Parsed<T::V>,
) -> bool {
    match expected {
        Ok((value, end)) => result matches Ok((parsed, behind)) && parsed@ == value && behind
            == end,
        Err(failure) => result matches Err(error) && tells(error, failure),
    }
}

/// The failure of that kind at that position.
pub open spec fn fails<T>(kind: ParseErrorKind, position: int) -> Parsed<T> {
    Err(ParseFailure { kind, position })
}

// Characters

/// The decimal digits.
pub open spec fn is_digit(c: char) -> bool {
    '0' <= c <= '9'
}

/// The letters of ASCII.
pub open spec fn is_ascii_letter(c: char) -> bool {
    'a' <= c <= 'z' || 'A' <= c <= 'Z'
}

/// Whether a character beyond ASCII is a letter or a number: the answer of
/// `char::is_alphanumeric`.
pub uninterp spec fn unicode_alphanumeric(c: char) -> bool;

/// The characters of names: letters and numbers, `$` and `_`.
pub open spec fn is_identifier_char(c: char) -> bool {
    c == '$' || c == '_' || if c <= '\x7f' {
        is_digit(c) || is_ascii_letter(c)
    } else {
        unicode_alphanumeric(c)
    }
}

/// A name: characters of names, at least one.
pub open spec fn is_name(name: Seq<char>) -> bool {
    name.len() > 0 && forall|i: int| 0 <= i < name.len() ==> is_identifier_char(#[trigger] name[i])
}

/// Space and tab: what may stand between the parts of one instruction.
pub open spec fn is_blank(c: char) -> bool {
    c == ' ' || c == '\t'
}

/// Line feed and carriage return: what ends a line.
pub open spec fn is_line_end(c: char) -> bool {
    c == '\n' || c == '\r'
}

/// Blanks and line ends: what may stand between two instructions.
pub open spec fn is_whitespace(c: char) -> bool {
    is_blank(c) || is_line_end(c)
}

/// The kinds of character that are consumed in runs.
#[derive(Debug, PartialEq, Eq, Clone, Copy, Structural)]
pub enum CharClass {
    Identifier,
    Digit,
    /// Anything but a line end: the body of a line comment.
    Line,
}

/// Whether a character belongs to a class.
pub open spec fn in_class(class: CharClass, c: char) -> bool {
    match class {
        CharClass::Identifier => is_identifier_char(c),
        CharClass::Digit => is_digit(c),
        CharClass::Line => !is_line_end(c),
    }
}

/// Where the longest run of characters of one class that starts at `from`
/// ends.
pub open spec fn run_end(s: Seq<char>, from: int, class: CharClass) -> int
    decreases s.len() - from,
{
    if 0 <= from < s.len() && in_class(class, s[from]) {
        run_end(s, from + 1, class)
    } else {
        from
    }
}

/// Whether `c` is the letter `k` in either case, or the very character `k`
/// where `k` is no letter.
pub open spec fn same_letter(c: char, k: char) -> bool {
    c == k || ('A' <= k <= 'Z' && c as int == k as int + 32) || ('a' <= k <= 'z' && c as int + 32
        == k as int)
}

/// Whether `word` stands in `s` at `at`, whatever the case of its letters.
pub open spec fn keyword_at(s: Seq<char>, at: int, word: Seq<char>) -> bool {
    &&& 0 <= at
    &&& at + word.len() <= s.len()
    &&& forall|i: int| 0 <= i < word.len() ==> same_letter(#[trigger] s[at + i], word[i])
}

/// A word of capitals and underscores: what opcodes and the names of
/// intrinsics are written in.
pub open spec fn is_opcode_word(word: Seq<char>) -> bool {
    forall|i: int| 0 <= i < word.len() ==> 'A' <= #[trigger] word[i] <= 'Z' || word[i] == '_'
}

/// Whether a word goes on at `at`: a character of names stands there, or a
/// colon, which makes a label of the name before it.
pub open spec fn goes_on(s: Seq<char>, at: int) -> bool {
    0 <= at < s.len() && (is_identifier_char(s[at]) || s[at] == ':')
}

/// Whether `word` stands in `s` at `at` as a whole word, whatever the case of
/// its letters: the word does not go on behind its last letter. So `RET` does
/// not stand where `return` does, nor `NOT` where the label `notdone:` does.
pub open spec fn word_at(s: Seq<char>, at: int, word: Seq<char>) -> bool {
    keyword_at(s, at, word) && !goes_on(s, at + word.len())
}

// Comments and separators

/// Where the first `*/` at or behind `from` ends.
pub open spec fn comment_close(s: Seq<char>, from: int) -> Option<int>
    decreases s.len() - from,
{
    if from < 0 || from + 2 > s.len() {
        None
    } else if s[from] == '*' && s[from + 1] == '/' {
        Some(from + 2)
    } else {
        comment_close(s, from + 1)
    }
}

/// Where the block comment that starts at `at` ends: it runs from `/*` to the
/// first `*/` behind that, and does not nest.
pub open spec fn block_comment_end(s: Seq<char>, at: int) -> Option<int> {
    if 0 <= at && at + 2 <= s.len() && s[at] == '/' && s[at + 1] == '*' {
        comment_close(s, at + 2)
    } else {
        None
    }
}

/// Where the line comment that starts at `at` ends: it runs from `#` to the
/// end of the line, and leaves the line end where it is.
pub open spec fn line_comment_end(s: Seq<char>, at: int) -> Option<int> {
    if 0 <= at < s.len() && s[at] == '#' {
        Some(run_end(s, at + 1, CharClass::Line))
    } else {
        None
    }
}

/// Where the separator between the parts of one instruction ends: the longest
/// run of blanks and block comments from `from` on. It may be empty.
pub open spec fn within_end(s: Seq<char>, from: int) -> int
    decreases s.len() - from,
{
    if 0 <= from < s.len() && is_blank(s[from]) {
        within_end(s, from + 1)
    } else {
        match block_comment_end(s, from) {
            Some(end) if from < end <= s.len() => within_end(s, end),
            _ => from,
        }
    }
}

/// Where the separator between two instructions ends: the longest run of
/// whitespace, block comments and line comments from `from` on. Where it is
/// `from`, there is no separator.
pub open spec fn between_end(s: Seq<char>, from: int) -> int
    decreases s.len() - from,
{
    if 0 <= from < s.len() && is_whitespace(s[from]) {
        between_end(s, from + 1)
    } else {
        match block_comment_end(s, from) {
            Some(end) if from < end <= s.len() => between_end(s, end),
            _ => match line_comment_end(s, from) {
                Some(end) if from < end <= s.len() => between_end(s, end),
                _ => from,
            },
        }
    }
}

// Operands

/// The number that the decimal digits from `from` to `to` write.
pub open spec fn digits_value(s: Seq<char>, from: int, to: int) -> nat
    decreases to - from,
{
    if to <= from {
        0
    } else {
        digits_value(s, from, to - 1) * 10 + (s[to - 1] as int - '0' as int) as nat
    }
}

/// A count, index or size at `at`: decimal digits, as many as there are, whose
/// number fits 64 bits.
pub open spec fn unsigned_at(s: Seq<char>, at: int) -> Parsed<u64> {
    let end = run_end(s, at, CharClass::Digit);
    if end <= at {
        if 0 <= at < s.len() && s[at] == '-' {
            fails(ParseErrorKind::NegativeValue, at)
        } else {
            fails(ParseErrorKind::MissingOperand, at)
        }
    } else if digits_value(s, at, end) > u64::MAX {
        fails(ParseErrorKind::MalformedLiteral, at)
    } else {
        Ok((digits_value(s, at, end) as u64, end))
    }
}

/// A signed integer at `at`: a sign or none, then decimal digits, as many as
/// there are, whose number fits signed 64 bits.
pub open spec fn signed_at(s: Seq<char>, at: int) -> Parsed<i64> {
    let negative = 0 <= at < s.len() && s[at] == '-';
    let start = if 0 <= at < s.len() && (s[at] == '-' || s[at] == '+') {
        at + 1
    } else {
        at
    };
    let end = run_end(s, start, CharClass::Digit);
    let magnitude = digits_value(s, start, end);
    if end <= start {
        fails(ParseErrorKind::MissingOperand, at)
    } else if negative && magnitude <= 0x8000_0000_0000_0000 {
        Ok(((-magnitude) as i64, end))
    } else if !negative && magnitude <= i64::MAX {
        Ok((magnitude as i64, end))
    } else {
        fails(ParseErrorKind::MalformedLiteral, at)
    }
}

/// A name at `at`: characters of names, as many as there are, at least one.
pub open spec fn identifier_at(s: Seq<char>, at: int) -> Parsed<Seq<char>> {
    let end = run_end(s, at, CharClass::Identifier);
    if at < end {
        Ok((s.subrange(at, end), end))
    } else {
        fails(ParseErrorKind::MissingOperand, at)
    }
}

/// The text of a string literal from `from` on, with `\"` read as `"` and
/// `\\` as `\`, and where it ends: before the first quote that no backslash
/// escapes, or where `s` ends. There is none if a backslash stands before
/// anything else, or last.
pub open spec fn inside_string_at(s: Seq<char>, from: int) -> Option<(Seq<char>, int)>
    decreases s.len() - from,
{
    if from < 0 || from >= s.len() {
        Some((Seq::empty(), from))
    } else if s[from] == '"' {
        Some((Seq::empty(), from))
    } else if s[from] == '\\' {
        if from + 1 < s.len() && (s[from + 1] == '"' || s[from + 1] == '\\') {
            match inside_string_at(s, from + 2) {
                Some((text, end)) => Some((seq![s[from + 1]] + text, end)),
                None => None,
            }
        } else {
            None
        }
    } else {
        match inside_string_at(s, from + 1) {
            Some((text, end)) => Some((seq![s[from]] + text, end)),
            None => None,
        }
    }
}

/// A string literal at `at`: a quote, a text, and the quote that closes it.
pub open spec fn string_literal_at(s: Seq<char>, at: int) -> Parsed<Seq<char>> {
    if 0 <= at < s.len() && s[at] == '"' {
        match inside_string_at(s, at + 1) {
            Some((text, end)) if end < s.len() => Ok((text, end + 1)),
            _ => fails(ParseErrorKind::MalformedLiteral, at),
        }
    } else {
        fails(ParseErrorKind::MissingOperand, at)
    }
}

/// The name of an intrinsic at `at`, as a whole word.
pub open spec fn intrinsic_name_at(s: Seq<char>, at: int) -> Parsed<Intrinsic> {
    if word_at(s, at, "PRINT_INT"@) {
        Ok((Intrinsic::PrintInt, at + "PRINT_INT"@.len()))
    } else if word_at(s, at, "PRINT_STRING"@) {
        Ok((Intrinsic::PrintString, at + "PRINT_STRING"@.len()))
    } else if word_at(s, at, "EXIT"@) {
        Ok((Intrinsic::Exit, at + "EXIT"@.len()))
    } else if at >= s.len() {
        fails(ParseErrorKind::MissingOperand, at)
    } else {
        fails(ParseErrorKind::UnrecognizedKeyword, at)
    }
}

/// Where the operands of the instruction at `at` start, if its opcode is
/// `word`: behind the opcode, which stands as a whole word, and the separator
/// that follows it.
pub open spec fn operands_at(s: Seq<char>, at: int, word: Seq<char>) -> Parsed<()> {
    if word_at(s, at, word) {
        Ok(((), within_end(s, at + word.len())))
    } else {
        fails(ParseErrorKind::UnrecognizedKeyword, at)
    }
}

/// A name and, behind a separator, a count.
pub open spec fn name_and_count_at(s: Seq<char>, at: int) -> Parsed<(Seq<char>, u64)> {
    match identifier_at(s, at) {
        Err(failure) => Err(failure),
        Ok((name, behind)) => match unsigned_at(s, within_end(s, behind)) {
            Err(failure) => Err(failure),
            Ok((count, end)) => Ok(((name, count), end)),
        },
    }
}

// Instructions

/// An opcode without operands: the whole word alone, and nothing behind it.
pub open spec fn bare_at(s: Seq<char>, at: int, word: Seq<char>, op: Op) -> Parsed<Op> {
    if word_at(s, at, word) {
        Ok((op, at + word.len()))
    } else {
        fails(ParseErrorKind::UnrecognizedKeyword, at)
    }
}

/// An opcode and a signed integer.
pub open spec fn signed_operand_at(s: Seq<char>, at: int, word: Seq<char>) -> Parsed<i64> {
    match operands_at(s, at, word) {
        Err(failure) => Err(failure),
        Ok((_, start)) => signed_at(s, start),
    }
}

/// An opcode and a count, index or size.
pub open spec fn unsigned_operand_at(s: Seq<char>, at: int, word: Seq<char>) -> Parsed<u64> {
    match operands_at(s, at, word) {
        Err(failure) => Err(failure),
        Ok((_, start)) => unsigned_at(s, start),
    }
}

/// An opcode and a name.
pub open spec fn name_operand_at(s: Seq<char>, at: int, word: Seq<char>) -> Parsed<Seq<char>> {
    match operands_at(s, at, word) {
        Err(failure) => Err(failure),
        Ok((_, start)) => identifier_at(s, start),
    }
}

/// An opcode, a name and a count.
pub open spec fn name_and_count_operands_at(s: Seq<char>, at: int, word: Seq<char>) -> Parsed<
    (Seq<char>, u64),
> {
    match operands_at(s, at, word) {
        Err(failure) => Err(failure),
        Ok((_, start)) => name_and_count_at(s, start),
    }
}

/// `ICONST` and a signed integer.
pub open spec fn iconst_at(s: Seq<char>, at: int) -> Parsed<Op> {
    match signed_operand_at(s, at, "ICONST"@) {
        Err(failure) => Err(failure),
        Ok((value, end)) => Ok((Op::Iconst(value), end)),
    }
}

/// `SCONST` and a string literal.
pub open spec fn sconst_at(s: Seq<char>, at: int) -> Parsed<Op> {
    match operands_at(s, at, "SCONST"@) {
        Err(failure) => Err(failure),
        Ok((_, start)) => match string_literal_at(s, start) {
            Err(failure) => Err(failure),
            Ok((text, end)) => Ok((Op::Sconst(text), end)),
        },
    }
}

/// What stands behind a reservation's name and size: a string literal, which
/// makes it a text reservation with that initial value, or `(null)`, which
/// makes it an integer reservation.
pub open spec fn reserved_value_at(s: Seq<char>, at: int, name: Seq<char>, size: u64) -> Parsed<
    Op,
> {
    if 0 <= at < s.len() && s[at] == '"' {
        match string_literal_at(s, at) {
            Err(failure) => Err(failure),
            Ok((initial_value, end)) => Ok((Op::ReserveString { size, name, initial_value }, end)),
        }
    } else if keyword_at(s, at, "(null)"@) {
        Ok((Op::ReserveInt { name }, at + "(null)"@.len()))
    } else {
        fails(ParseErrorKind::MissingOperand, at)
    }
}

/// `RESERVE`, a name, a size, and a string literal or `(null)`. The size of
/// an integer reservation is read and not kept.
pub open spec fn reserve_at(s: Seq<char>, at: int) -> Parsed<Op> {
    match name_and_count_operands_at(s, at, "RESERVE"@) {
        Err(failure) => Err(failure),
        Ok(((name, size), behind)) => reserved_value_at(s, within_end(s, behind), name, size),
    }
}

/// `READ` and the name of a global.
pub open spec fn read_at(s: Seq<char>, at: int) -> Parsed<Op> {
    match name_operand_at(s, at, "READ"@) {
        Err(failure) => Err(failure),
        Ok((name, end)) => Ok((Op::Read(name), end)),
    }
}

/// `WRITE` and the name of a global.
pub open spec fn write_at(s: Seq<char>, at: int) -> Parsed<Op> {
    match name_operand_at(s, at, "WRITE"@) {
        Err(failure) => Err(failure),
        Ok((name, end)) => Ok((Op::Write(name), end)),
    }
}

/// `ARGLOCAL_READ` and the index of a local.
pub open spec fn arg_local_read_at(s: Seq<char>, at: int) -> Parsed<Op> {
    match unsigned_operand_at(s, at, "ARGLOCAL_READ"@) {
        Err(failure) => Err(failure),
        Ok((index, end)) => Ok((Op::ArgLocalRead(index), end)),
    }
}

/// `ARGLOCAL_WRITE` and the index of a local.
pub open spec fn arg_local_write_at(s: Seq<char>, at: int) -> Parsed<Op> {
    match unsigned_operand_at(s, at, "ARGLOCAL_WRITE"@) {
        Err(failure) => Err(failure),
        Ok((index, end)) => Ok((Op::ArgLocalWrite(index), end)),
    }
}

/// A label's declaration: a name with a colon right behind it.
pub open spec fn label_at(s: Seq<char>, at: int) -> Parsed<Op> {
    match identifier_at(s, at) {
        Ok((name, end)) if end < s.len() && s[end] == ':' => Ok((Op::Label(name), end + 1)),
        _ => fails(ParseErrorKind::UnrecognizedKeyword, at),
    }
}

/// `JUMP` and a label.
pub open spec fn jump_at(s: Seq<char>, at: int) -> Parsed<Op> {
    match name_operand_at(s, at, "JUMP"@) {
        Err(failure) => Err(failure),
        Ok((label, end)) => Ok((Op::Jump(label), end)),
    }
}

/// `BRANCHZERO` and a label.
pub open spec fn branch_zero_at(s: Seq<char>, at: int) -> Parsed<Op> {
    match name_operand_at(s, at, "BRANCHZERO"@) {
        Err(failure) => Err(failure),
        Ok((label, end)) => Ok((Op::BranchZero(label), end)),
    }
}

/// `FUNCTION`, a label and the number of locals.
pub open spec fn function_at(s: Seq<char>, at: int) -> Parsed<Op> {
    match name_and_count_operands_at(s, at, "FUNCTION"@) {
        Err(failure) => Err(failure),
        Ok(((label, num_locs), end)) => Ok((Op::Function { label, num_locs }, end)),
    }
}

/// `CALL`, a label and the number of arguments.
pub open spec fn call_at(s: Seq<char>, at: int) -> Parsed<Op> {
    match name_and_count_operands_at(s, at, "CALL"@) {
        Err(failure) => Err(failure),
        Ok(((label, num_args), end)) => Ok((Op::Call { label, num_args }, end)),
    }
}

/// `INTRINSIC` and the name of an intrinsic.
pub open spec fn intrinsic_at(s: Seq<char>, at: int) -> Parsed<Op> {
    match operands_at(s, at, "INTRINSIC"@) {
        Err(failure) => Err(failure),
        Ok((_, start)) => match intrinsic_name_at(s, start) {
            Err(failure) => Err(failure),
            Ok((intrinsic, end)) => Ok((Op::Intrinsic(intrinsic), end)),
        },
    }
}

/// `PUSH` and a register.
pub open spec fn push_at(s: Seq<char>, at: int) -> Parsed<Op> {
    match signed_operand_at(s, at, "PUSH"@) {
        Err(failure) => Err(failure),
        Ok((reg, end)) => Ok((Op::Push { reg }, end)),
    }
}

/// `POP` and a register.
pub open spec fn pop_at(s: Seq<char>, at: int) -> Parsed<Op> {
    match signed_operand_at(s, at, "POP"@) {
        Err(failure) => Err(failure),
        Ok((reg, end)) => Ok((Op::Pop { reg }, end)),
    }
}

/// Ordered choice between what the rules tried so far made of the text at
/// `at` and what the next rule makes of it: the first success stands. Of two
/// failures, the earlier stands if it lies behind `at`, that is, if its rule
/// had found its opcode; else the later.
pub open spec fn or_else(sofar: Parsed<Op>, next: Parsed<Op>, at: int) -> Parsed<Op> {
    match sofar {
        Ok(found) => Ok(found),
        Err(failure) => match next {
            Ok(found) => Ok(found),
            Err(other) => if failure.position > at {
                Err(failure)
            } else {
                Err(other)
            },
        },
    }
}

/// Constants, arithmetic, logic and comparison.
pub open spec fn arithmetic_at(s: Seq<char>, at: int) -> Parsed<Op> {
    let found = iconst_at(s, at);
    let found = or_else(found, sconst_at(s, at), at);
    let found = or_else(found, bare_at(s, at, "NOP"@, Op::Nop), at);
    let found = or_else(found, bare_at(s, at, "ADD"@, Op::Add), at);
    let found = or_else(found, bare_at(s, at, "SUB"@, Op::Sub), at);
    let found = or_else(found, bare_at(s, at, "MUL"@, Op::Mul), at);
    let found = or_else(found, bare_at(s, at, "DIV"@, Op::Div), at);
    let found = or_else(found, bare_at(s, at, "MOD"@, Op::Mod), at);
    let found = or_else(found, bare_at(s, at, "BOR"@, Op::Bor), at);
    let found = or_else(found, bare_at(s, at, "BAND"@, Op::Band), at);
    let found = or_else(found, bare_at(s, at, "XOR"@, Op::Xor), at);
    let found = or_else(found, bare_at(s, at, "OR"@, Op::Or), at);
    let found = or_else(found, bare_at(s, at, "AND"@, Op::And), at);
    let found = or_else(found, bare_at(s, at, "EQ"@, Op::Eq), at);
    let found = or_else(found, bare_at(s, at, "LT"@, Op::Lt), at);
    let found = or_else(found, bare_at(s, at, "GT"@, Op::Gt), at);
    or_else(found, bare_at(s, at, "NOT"@, Op::Not), at)
}

/// Globals and locals.
pub open spec fn variable_at(s: Seq<char>, at: int) -> Parsed<Op> {
    let found = reserve_at(s, at);
    let found = or_else(found, read_at(s, at), at);
    let found = or_else(found, write_at(s, at), at);
    let found = or_else(found, arg_local_read_at(s, at), at);
    or_else(found, arg_local_write_at(s, at), at)
}

/// Labels, jumps and branches.
pub open spec fn control_at(s: Seq<char>, at: int) -> Parsed<Op> {
    let found = label_at(s, at);
    let found = or_else(found, jump_at(s, at), at);
    or_else(found, branch_zero_at(s, at), at)
}

/// Functions, calls, returns and intrinsics.
pub open spec fn procedure_at(s: Seq<char>, at: int) -> Parsed<Op> {
    let found = function_at(s, at);
    let found = or_else(found, call_at(s, at), at);
    let found = or_else(found, bare_at(s, at, "RET"@, Op::Ret), at);
    or_else(found, intrinsic_at(s, at), at)
}

/// Registers named by immediates.
pub open spec fn register_at(s: Seq<char>, at: int) -> Parsed<Op> {
    or_else(push_at(s, at), pop_at(s, at), at)
}

/// One instruction at `at`: the first rule that succeeds there, the rules
/// tried in a fixed order. Opcodes are whole words, so a name that starts
/// with the letters of an opcode is no opcode, and any name with a colon
/// right behind it is a label. The instruction starts right at `at` and ends
/// with its last operand: no separator before or behind it is consumed.
#[verifier::opaque]
pub open spec fn node_at(s: Seq<char>, at: int) -> Parsed<Op> {
    let found = arithmetic_at(s, at);
    let found = or_else(found, variable_at(s, at), at);
    let found = or_else(found, control_at(s, at), at);
    let found = or_else(found, procedure_at(s, at), at);
    or_else(found, register_at(s, at), at)
}

// Programs

/// The instructions that follow one that ended at `end`, each behind a
/// separator, and where the last of them ends. The list stops before the
/// first separator that no instruction follows.
pub open spec fn more_nodes_at(s: Seq<char>, end: int) -> (Seq<Op>, int)
    decreases s.len() - end,
{
    let next = between_end(s, end);
    if next <= end {
        (Seq::empty(), end)
    } else {
        match node_at(s, next) {
            Ok((op, behind)) if next < behind <= s.len() => {
                let (rest, last) = more_nodes_at(s, behind);
                (seq![op] + rest, last)
            },
            _ => (Seq::empty(), end),
        }
    }
}

/// The instructions from `at` on, each parted from the next by a separator,
/// and where the last of them ends. Where no instruction starts at `at`, the
/// list is empty and ends at `at`.
pub open spec fn nodes_at(s: Seq<char>, at: int) -> (Seq<Op>, int) {
    match node_at(s, at) {
        Ok((op, end)) => {
            let (rest, last) = more_nodes_at(s, end);
            (seq![op] + rest, last)
        },
        Err(_) => (Seq::empty(), at),
    }
}

/// A whole text as a program: a separator or none, instructions parted by
/// separators, a separator or none, and then the end of the text. Where
/// something is left, the failure is that of the instruction that does not
/// start there, or, right behind an instruction, that no separator parts the
/// two.
pub open spec fn program_of(s: Seq<char>) -> Result<Seq<Op>, ParseFailure> {
    let start = between_end(s, 0);
    let (ops, last) = nodes_at(s, start);
    let end = between_end(s, last);
    if end >= s.len() {
        Ok(ops)
    } else if ops.len() > 0 && end == last {
        Err(ParseFailure { kind: ParseErrorKind::TrailingInput, position: end })
    } else {
        match node_at(s, end) {
            Err(failure) => Err(failure),
            Ok(_) => Err(ParseFailure { kind: ParseErrorKind::TrailingInput, position: end }),
        }
    }
}

} // verus!

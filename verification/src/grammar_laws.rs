//! What holds of the assembly syntax, whatever the text.

use crate::grammar::{
    arg_local_read_at, arg_local_write_at, arithmetic_at, bare_at, between_end, block_comment_end,
    branch_zero_at, call_at, comment_close, control_at, digits_value, function_at, goes_on,
    iconst_at, identifier_at, in_class, inside_string_at, intrinsic_at, intrinsic_name_at,
    is_ascii_letter, is_digit, is_identifier_char, is_opcode_word, is_whitespace, jump_at,
    keyword_at, label_at, line_comment_end, name_and_count_at, name_and_count_operands_at,
    name_operand_at, node_at, operands_at, pop_at, procedure_at, push_at, read_at, register_at,
    reserve_at, reserved_value_at, run_end, same_letter, sconst_at, signed_at, signed_operand_at,
    string_literal_at, unsigned_at, unsigned_operand_at, variable_at, within_end, word_at, write_at,
    CharClass, Parsed, ParseErrorKind, ParseFailure,
};
use crate::ir_definition::Op;
use vstd::prelude::*;

verus! {

/// A run lies within the text, holds only characters of its class, and ends
/// where the text ends or another character stands.
pub proof fn lemma_run(s: Seq<char>, from: int, class: CharClass)
    requires
        0 <= from <= s.len(),
    ensures
        from <= run_end(s, from, class) <= s.len(),
        forall|i: int| from <= i < run_end(s, from, class) ==> in_class(class, #[trigger] s[i]),
        run_end(s, from, class) < s.len() ==> !in_class(class, s[run_end(s, from, class)]),
    decreases s.len() - from,
{
    if from < s.len() && in_class(class, s[from]) {
        lemma_run(s, from + 1, class);
    }
}

/// A stretch that holds only characters of one class, and ends where the
/// text ends or another character stands, is the run that starts where it
/// starts.
pub proof fn lemma_run_is(s: Seq<char>, from: int, to: int, class: CharClass)
    requires
        0 <= from <= to <= s.len(),
        forall|i: int| from <= i < to ==> in_class(class, #[trigger] s[i]),
        to < s.len() ==> !in_class(class, s[to]),
    ensures
        run_end(s, from, class) == to,
    decreases to - from,
{
    if from < to {
        lemma_run_is(s, from + 1, to, class);
    }
}

/// A comment's close lies behind where the search starts, and within the text.
pub proof fn lemma_comment_close(s: Seq<char>, from: int)
    requires
        0 <= from,
    ensures
        comment_close(s, from) matches Some(end) ==> from + 2 <= end <= s.len(),
    decreases s.len() - from,
{
    if from + 2 <= s.len() && !(s[from] == '*' && s[from + 1] == '/') {
        lemma_comment_close(s, from + 1);
    }
}

/// The separator within an instruction lies within the text.
pub proof fn lemma_within(s: Seq<char>, from: int)
    requires
        0 <= from <= s.len(),
    ensures
        from <= within_end(s, from) <= s.len(),
    decreases s.len() - from,
{
    if from < s.len() && (s[from] == ' ' || s[from] == '\t') {
        lemma_within(s, from + 1);
    } else {
        match block_comment_end(s, from) {
            Some(end) if from < end <= s.len() => lemma_within(s, end),
            _ => {},
        }
    }
}

/// The separator between instructions lies within the text.
pub proof fn lemma_between(s: Seq<char>, from: int)
    requires
        0 <= from <= s.len(),
    ensures
        from <= between_end(s, from) <= s.len(),
    decreases s.len() - from,
{
    if from < s.len() && (s[from] == ' ' || s[from] == '\t' || s[from] == '\n' || s[from]
        == '\r') {
        lemma_between(s, from + 1);
    } else {
        match block_comment_end(s, from) {
            Some(end) if from < end <= s.len() => lemma_between(s, end),
            _ => match line_comment_end(s, from) {
                Some(end) if from < end <= s.len() => lemma_between(s, end),
                _ => {},
            },
        }
    }
}

/// Where a separator ends, no further separator starts.
pub proof fn lemma_between_stops(s: Seq<char>, from: int)
    requires
        0 <= from <= s.len(),
    ensures
        between_end(s, between_end(s, from)) == between_end(s, from),
    decreases s.len() - from,
{
    if from < s.len() && (s[from] == ' ' || s[from] == '\t' || s[from] == '\n' || s[from]
        == '\r') {
        lemma_between_stops(s, from + 1);
    } else {
        match block_comment_end(s, from) {
            Some(end) if from < end <= s.len() => lemma_between_stops(s, end),
            _ => match line_comment_end(s, from) {
                Some(end) if from < end <= s.len() => lemma_between_stops(s, end),
                _ => {},
            },
        }
    }
}

/// More digits write no smaller a number.
pub proof fn lemma_digits_grow(s: Seq<char>, from: int, middle: int, to: int)
    requires
        from <= middle <= to,
    ensures
        digits_value(s, from, middle) <= digits_value(s, from, to),
    decreases to - middle,
{
    if middle < to {
        lemma_digits_grow(s, from, middle, to - 1);
    }
}

/// A word that starts with a letter does not stand where no character of
/// names stands.
proof fn lemma_no_keyword(s: Seq<char>, at: int, word: Seq<char>)
    requires
        0 <= at,
        at >= s.len() || !is_identifier_char(s[at]),
        word.len() > 0,
        'A' <= word[0] <= 'Z',
    ensures
        !keyword_at(s, at, word),
{
    if at < s.len() {
        assert(!same_letter(s[at + 0], word[0]));
    }
}

/// Every instruction starts with a character of names: where none stands,
/// an opcode or a label is missed right there.
pub proof fn lemma_node_starts_with_name_char(s: Seq<char>, at: int)
    requires
        0 <= at,
        at >= s.len() || !is_identifier_char(s[at]),
    ensures
        node_at(s, at) == Err::<(Op, int), ParseFailure>(
            ParseFailure { kind: ParseErrorKind::UnrecognizedKeyword, position: at },
        ),
{
    reveal(node_at);
    reveal_strlit("ICONST");
    reveal_strlit("SCONST");
    reveal_strlit("NOP");
    reveal_strlit("ADD");
    reveal_strlit("SUB");
    reveal_strlit("MUL");
    reveal_strlit("DIV");
    reveal_strlit("MOD");
    reveal_strlit("BOR");
    reveal_strlit("BAND");
    reveal_strlit("XOR");
    reveal_strlit("OR");
    reveal_strlit("AND");
    reveal_strlit("EQ");
    reveal_strlit("LT");
    reveal_strlit("GT");
    reveal_strlit("NOT");
    lemma_no_keyword(s, at, "ICONST"@);
    lemma_no_keyword(s, at, "SCONST"@);
    lemma_no_keyword(s, at, "NOP"@);
    lemma_no_keyword(s, at, "ADD"@);
    lemma_no_keyword(s, at, "SUB"@);
    lemma_no_keyword(s, at, "MUL"@);
    lemma_no_keyword(s, at, "DIV"@);
    lemma_no_keyword(s, at, "MOD"@);
    lemma_no_keyword(s, at, "BOR"@);
    lemma_no_keyword(s, at, "BAND"@);
    lemma_no_keyword(s, at, "XOR"@);
    lemma_no_keyword(s, at, "OR"@);
    lemma_no_keyword(s, at, "AND"@);
    lemma_no_keyword(s, at, "EQ"@);
    lemma_no_keyword(s, at, "LT"@);
    lemma_no_keyword(s, at, "GT"@);
    lemma_no_keyword(s, at, "NOT"@);
    assert(arithmetic_at(s, at) == Err::<(Op, int), ParseFailure>(
        ParseFailure { kind: ParseErrorKind::UnrecognizedKeyword, position: at },
    ));
    reveal_strlit("RESERVE");
    reveal_strlit("READ");
    reveal_strlit("WRITE");
    reveal_strlit("ARGLOCAL_READ");
    reveal_strlit("ARGLOCAL_WRITE");
    lemma_no_keyword(s, at, "RESERVE"@);
    lemma_no_keyword(s, at, "READ"@);
    lemma_no_keyword(s, at, "WRITE"@);
    lemma_no_keyword(s, at, "ARGLOCAL_READ"@);
    lemma_no_keyword(s, at, "ARGLOCAL_WRITE"@);
    assert(variable_at(s, at) == Err::<(Op, int), ParseFailure>(
        ParseFailure { kind: ParseErrorKind::UnrecognizedKeyword, position: at },
    ));
    reveal_strlit("JUMP");
    reveal_strlit("BRANCHZERO");
    lemma_no_keyword(s, at, "JUMP"@);
    lemma_no_keyword(s, at, "BRANCHZERO"@);
    assert(control_at(s, at) == Err::<(Op, int), ParseFailure>(
        ParseFailure { kind: ParseErrorKind::UnrecognizedKeyword, position: at },
    ));
    reveal_strlit("FUNCTION");
    reveal_strlit("CALL");
    reveal_strlit("RET");
    reveal_strlit("INTRINSIC");
    lemma_no_keyword(s, at, "FUNCTION"@);
    lemma_no_keyword(s, at, "CALL"@);
    lemma_no_keyword(s, at, "RET"@);
    lemma_no_keyword(s, at, "INTRINSIC"@);
    assert(procedure_at(s, at) == Err::<(Op, int), ParseFailure>(
        ParseFailure { kind: ParseErrorKind::UnrecognizedKeyword, position: at },
    ));
    reveal_strlit("PUSH");
    reveal_strlit("POP");
    lemma_no_keyword(s, at, "PUSH"@);
    lemma_no_keyword(s, at, "POP"@);
    assert(register_at(s, at) == Err::<(Op, int), ParseFailure>(
        ParseFailure { kind: ParseErrorKind::UnrecognizedKeyword, position: at },
    ));
}

/// Whitespace before an instruction is not skipped: where a blank or a line
/// end stands, no instruction starts.
pub proof fn lemma_node_rejects_leading_whitespace(s: Seq<char>, at: int)
    requires
        0 <= at < s.len(),
        is_whitespace(s[at]),
    ensures
        node_at(s, at) is Err,
{
    lemma_node_starts_with_name_char(s, at);
}

/// What is consumed is not empty, lies within the text, and does not end in
/// whitespace.
pub open spec fn ends_visibly<T>(s: Seq<char>, at: int, parsed: Parsed<T>) -> bool {
    parsed matches Ok((_, end)) ==> at < end <= s.len() && !is_whitespace(s[end - 1])
}

proof fn lemma_keyword_ends_visibly(s: Seq<char>, at: int, word: Seq<char>)
    requires
        keyword_at(s, at, word),
        word.len() > 0,
        'A' <= word[word.len() - 1] <= 'Z' || word[word.len() - 1] == ')',
    ensures
        at < at + word.len() <= s.len(),
        !is_whitespace(s[at + word.len() - 1]),
{
    assert(same_letter(s[at + (word.len() - 1)], word[word.len() - 1]));
}

proof fn lemma_bare_ends_visibly(s: Seq<char>, at: int, word: Seq<char>, op: Op)
    requires
        word.len() > 0,
        'A' <= word[word.len() - 1] <= 'Z',
    ensures
        ends_visibly(s, at, bare_at(s, at, word, op)),
{
    if keyword_at(s, at, word) {
        lemma_keyword_ends_visibly(s, at, word);
    }
}

proof fn lemma_operands_start(s: Seq<char>, at: int, word: Seq<char>)
    requires
        word.len() > 0,
    ensures
        operands_at(s, at, word) matches Ok((_, start)) ==> at < start <= s.len(),
{
    if keyword_at(s, at, word) {
        lemma_within(s, at + word.len());
    }
}

proof fn lemma_signed_ends_visibly(s: Seq<char>, at: int)
    requires
        0 <= at <= s.len(),
    ensures
        ends_visibly(s, at, signed_at(s, at)),
{
    let start = if at < s.len() && (s[at] == '-' || s[at] == '+') {
        at + 1
    } else {
        at
    };
    lemma_run(s, start, CharClass::Digit);
}

proof fn lemma_unsigned_ends_visibly(s: Seq<char>, at: int)
    requires
        0 <= at <= s.len(),
    ensures
        ends_visibly(s, at, unsigned_at(s, at)),
{
    lemma_run(s, at, CharClass::Digit);
}

proof fn lemma_identifier_ends_visibly(s: Seq<char>, at: int)
    requires
        0 <= at <= s.len(),
    ensures
        ends_visibly(s, at, identifier_at(s, at)),
{
    lemma_run(s, at, CharClass::Identifier);
}

/// The text inside a string literal ends within the text, and before a quote
/// unless it ends with the text.
pub proof fn lemma_inside_string_end(s: Seq<char>, from: int)
    requires
        0 <= from <= s.len(),
    ensures
        inside_string_at(s, from) matches Some((_, end)) ==> from <= end <= s.len() && (end
            < s.len() ==> s[end] == '"'),
    decreases s.len() - from,
{
    if from < s.len() && s[from] != '"' {
        if s[from] == '\\' {
            if from + 1 < s.len() && (s[from + 1] == '"' || s[from + 1] == '\\') {
                lemma_inside_string_end(s, from + 2);
            }
        } else {
            lemma_inside_string_end(s, from + 1);
        }
    }
}

proof fn lemma_literal_ends_visibly(s: Seq<char>, at: int)
    requires
        0 <= at <= s.len(),
    ensures
        ends_visibly(s, at, string_literal_at(s, at)),
{
    if at < s.len() && s[at] == '"' {
        lemma_inside_string_end(s, at + 1);
    }
}

proof fn lemma_intrinsic_name_ends_visibly(s: Seq<char>, at: int)
    requires
        0 <= at <= s.len(),
    ensures
        ends_visibly(s, at, intrinsic_name_at(s, at)),
{
    reveal_strlit("PRINT_INT");
    reveal_strlit("PRINT_STRING");
    reveal_strlit("EXIT");
    if word_at(s, at, "PRINT_INT"@) {
        lemma_keyword_ends_visibly(s, at, "PRINT_INT"@);
    } else if word_at(s, at, "PRINT_STRING"@) {
        lemma_keyword_ends_visibly(s, at, "PRINT_STRING"@);
    } else if word_at(s, at, "EXIT"@) {
        lemma_keyword_ends_visibly(s, at, "EXIT"@);
    }
}

proof fn lemma_name_and_count_ends_visibly(s: Seq<char>, at: int)
    requires
        0 <= at <= s.len(),
    ensures
        ends_visibly(s, at, name_and_count_at(s, at)),
{
    lemma_identifier_ends_visibly(s, at);
    if let Ok((_, behind)) = identifier_at(s, at) {
        lemma_within(s, behind);
        lemma_unsigned_ends_visibly(s, within_end(s, behind));
    }
}

proof fn lemma_signed_operand_ends_visibly(s: Seq<char>, at: int, word: Seq<char>)
    requires
        word.len() > 0,
    ensures
        ends_visibly(s, at, signed_operand_at(s, at, word)),
{
    lemma_operands_start(s, at, word);
    if let Ok((_, start)) = operands_at(s, at, word) {
        lemma_signed_ends_visibly(s, start);
    }
}

proof fn lemma_unsigned_operand_ends_visibly(s: Seq<char>, at: int, word: Seq<char>)
    requires
        word.len() > 0,
    ensures
        ends_visibly(s, at, unsigned_operand_at(s, at, word)),
{
    lemma_operands_start(s, at, word);
    if let Ok((_, start)) = operands_at(s, at, word) {
        lemma_unsigned_ends_visibly(s, start);
    }
}

proof fn lemma_name_operand_ends_visibly(s: Seq<char>, at: int, word: Seq<char>)
    requires
        word.len() > 0,
    ensures
        ends_visibly(s, at, name_operand_at(s, at, word)),
{
    lemma_operands_start(s, at, word);
    if let Ok((_, start)) = operands_at(s, at, word) {
        lemma_identifier_ends_visibly(s, start);
    }
}

proof fn lemma_name_and_count_operands_ends_visibly(s: Seq<char>, at: int, word: Seq<char>)
    requires
        word.len() > 0,
    ensures
        ends_visibly(s, at, name_and_count_operands_at(s, at, word)),
{
    lemma_operands_start(s, at, word);
    if let Ok((_, start)) = operands_at(s, at, word) {
        lemma_name_and_count_ends_visibly(s, start);
    }
}

proof fn lemma_arithmetic_ends_visibly(s: Seq<char>, at: int)
    ensures
        ends_visibly(s, at, arithmetic_at(s, at)),
{
    reveal_strlit("ICONST");
    reveal_strlit("SCONST");
    reveal_strlit("NOP");
    reveal_strlit("ADD");
    reveal_strlit("SUB");
    reveal_strlit("MUL");
    reveal_strlit("DIV");
    reveal_strlit("MOD");
    reveal_strlit("BOR");
    reveal_strlit("BAND");
    reveal_strlit("XOR");
    reveal_strlit("OR");
    reveal_strlit("AND");
    reveal_strlit("EQ");
    reveal_strlit("LT");
    reveal_strlit("GT");
    reveal_strlit("NOT");
    lemma_signed_operand_ends_visibly(s, at, "ICONST"@);
    lemma_operands_start(s, at, "SCONST"@);
    if let Ok((_, start)) = operands_at(s, at, "SCONST"@) {
        lemma_literal_ends_visibly(s, start);
    }
    assert(ends_visibly(s, at, iconst_at(s, at)));
    assert(ends_visibly(s, at, sconst_at(s, at)));
    lemma_bare_ends_visibly(s, at, "NOP"@, Op::Nop);
    lemma_bare_ends_visibly(s, at, "ADD"@, Op::Add);
    lemma_bare_ends_visibly(s, at, "SUB"@, Op::Sub);
    lemma_bare_ends_visibly(s, at, "MUL"@, Op::Mul);
    lemma_bare_ends_visibly(s, at, "DIV"@, Op::Div);
    lemma_bare_ends_visibly(s, at, "MOD"@, Op::Mod);
    lemma_bare_ends_visibly(s, at, "BOR"@, Op::Bor);
    lemma_bare_ends_visibly(s, at, "BAND"@, Op::Band);
    lemma_bare_ends_visibly(s, at, "XOR"@, Op::Xor);
    lemma_bare_ends_visibly(s, at, "OR"@, Op::Or);
    lemma_bare_ends_visibly(s, at, "AND"@, Op::And);
    lemma_bare_ends_visibly(s, at, "EQ"@, Op::Eq);
    lemma_bare_ends_visibly(s, at, "LT"@, Op::Lt);
    lemma_bare_ends_visibly(s, at, "GT"@, Op::Gt);
    lemma_bare_ends_visibly(s, at, "NOT"@, Op::Not);
}

proof fn lemma_variable_ends_visibly(s: Seq<char>, at: int)
    ensures
        ends_visibly(s, at, variable_at(s, at)),
{
    reveal_strlit("RESERVE");
    reveal_strlit("(null)");
    reveal_strlit("READ");
    reveal_strlit("WRITE");
    reveal_strlit("ARGLOCAL_READ");
    reveal_strlit("ARGLOCAL_WRITE");
    lemma_name_and_count_operands_ends_visibly(s, at, "RESERVE"@);
    if let Ok(((name, size), behind)) = name_and_count_operands_at(s, at, "RESERVE"@) {
        lemma_within(s, behind);
        let value = within_end(s, behind);
        lemma_literal_ends_visibly(s, value);
        if keyword_at(s, value, "(null)"@) {
            lemma_keyword_ends_visibly(s, value, "(null)"@);
        }
        assert(ends_visibly(s, at, reserved_value_at(s, value, name, size)));
    }
    assert(ends_visibly(s, at, reserve_at(s, at)));
    lemma_name_operand_ends_visibly(s, at, "READ"@);
    lemma_name_operand_ends_visibly(s, at, "WRITE"@);
    lemma_unsigned_operand_ends_visibly(s, at, "ARGLOCAL_READ"@);
    lemma_unsigned_operand_ends_visibly(s, at, "ARGLOCAL_WRITE"@);
    assert(ends_visibly(s, at, read_at(s, at)));
    assert(ends_visibly(s, at, write_at(s, at)));
    assert(ends_visibly(s, at, arg_local_read_at(s, at)));
    assert(ends_visibly(s, at, arg_local_write_at(s, at)));
}

proof fn lemma_control_ends_visibly(s: Seq<char>, at: int)
    ensures
        ends_visibly(s, at, control_at(s, at)),
{
    reveal_strlit("JUMP");
    reveal_strlit("BRANCHZERO");
    if 0 <= at <= s.len() {
        lemma_run(s, at, CharClass::Identifier);
    }
    assert(ends_visibly(s, at, label_at(s, at)));
    lemma_name_operand_ends_visibly(s, at, "JUMP"@);
    lemma_name_operand_ends_visibly(s, at, "BRANCHZERO"@);
    assert(ends_visibly(s, at, jump_at(s, at)));
    assert(ends_visibly(s, at, branch_zero_at(s, at)));
}

proof fn lemma_procedure_ends_visibly(s: Seq<char>, at: int)
    ensures
        ends_visibly(s, at, procedure_at(s, at)),
{
    reveal_strlit("FUNCTION");
    reveal_strlit("CALL");
    reveal_strlit("RET");
    reveal_strlit("INTRINSIC");
    lemma_name_and_count_operands_ends_visibly(s, at, "FUNCTION"@);
    lemma_name_and_count_operands_ends_visibly(s, at, "CALL"@);
    lemma_bare_ends_visibly(s, at, "RET"@, Op::Ret);
    lemma_operands_start(s, at, "INTRINSIC"@);
    if let Ok((_, start)) = operands_at(s, at, "INTRINSIC"@) {
        lemma_intrinsic_name_ends_visibly(s, start);
    }
    assert(ends_visibly(s, at, function_at(s, at)));
    assert(ends_visibly(s, at, call_at(s, at)));
    assert(ends_visibly(s, at, intrinsic_at(s, at)));
}

proof fn lemma_register_ends_visibly(s: Seq<char>, at: int)
    ensures
        ends_visibly(s, at, register_at(s, at)),
{
    reveal_strlit("PUSH");
    reveal_strlit("POP");
    lemma_signed_operand_ends_visibly(s, at, "PUSH"@);
    lemma_signed_operand_ends_visibly(s, at, "POP"@);
    assert(ends_visibly(s, at, push_at(s, at)));
    assert(ends_visibly(s, at, pop_at(s, at)));
}

/// An instruction consumes at least one character and ends with the last
/// character of its opcode or of its last operand: whitespace behind it is
/// never consumed.
pub proof fn lemma_node_ends_visibly(s: Seq<char>, at: int)
    ensures
        node_at(s, at) matches Ok((_, end)) ==> at < end <= s.len() && !is_whitespace(s[end - 1]),
{
    reveal(node_at);
    lemma_arithmetic_ends_visibly(s, at);
    lemma_variable_ends_visibly(s, at);
    lemma_control_ends_visibly(s, at);
    lemma_procedure_ends_visibly(s, at);
    lemma_register_ends_visibly(s, at);
}

/// `ARGLOCAL_READ` takes a decimal index and nothing else. Where the opcode
/// stands and anything else follows it, a minus sign or a name or nothing,
/// no instruction is read: the failure is a negative value at the minus
/// sign, or else a missing operand where the index should start.
pub proof fn lemma_arg_local_read_takes_an_index(s: Seq<char>, at: int)
    requires
        word_at(s, at, "ARGLOCAL_READ"@),
        within_end(s, at + 13) >= s.len() || !is_digit(s[within_end(s, at + 13)]),
    ensures
        node_at(s, at) == Err::<(Op, int), ParseFailure>(
            ParseFailure {
                kind: if within_end(s, at + 13) < s.len() && s[within_end(s, at + 13)] == '-' {
                    ParseErrorKind::NegativeValue
                } else {
                    ParseErrorKind::MissingOperand
                },
                position: within_end(s, at + 13),
            },
        ),
{
    reveal(node_at);
    reveal_strlit("ARGLOCAL_READ");
    let word = "ARGLOCAL_READ"@;
    let start = within_end(s, at + 13);
    let missed = Err::<(Op, int), ParseFailure>(
        ParseFailure { kind: ParseErrorKind::UnrecognizedKeyword, position: at },
    );
    lemma_within(s, at + 13);
    assert(same_letter(s[at + 0], 'A'));
    assert(same_letter(s[at + 1], 'R'));
    assert(same_letter(s[at + 9], 'R'));
    assert(arithmetic_at(s, at) == missed) by {
        reveal_strlit("ICONST");
        reveal_strlit("SCONST");
        reveal_strlit("NOP");
        reveal_strlit("ADD");
        reveal_strlit("SUB");
        reveal_strlit("MUL");
        reveal_strlit("DIV");
        reveal_strlit("MOD");
        reveal_strlit("BOR");
        reveal_strlit("BAND");
        reveal_strlit("XOR");
        reveal_strlit("OR");
        reveal_strlit("AND");
        reveal_strlit("EQ");
        reveal_strlit("LT");
        reveal_strlit("GT");
        reveal_strlit("NOT");
    }
    let failure = ParseFailure {
        kind: if start < s.len() && s[start] == '-' {
            ParseErrorKind::NegativeValue
        } else {
            ParseErrorKind::MissingOperand
        },
        position: start,
    };
    assert(unsigned_at(s, start) == Err::<(u64, int), ParseFailure>(failure));
    assert(arg_local_read_at(s, at) == Err::<(Op, int), ParseFailure>(failure));
    assert(variable_at(s, at) == Err::<(Op, int), ParseFailure>(failure)) by {
        reveal_strlit("RESERVE");
        reveal_strlit("READ");
        reveal_strlit("WRITE");
        reveal_strlit("ARGLOCAL_WRITE");
        assert(reserve_at(s, at) == missed);
        assert(read_at(s, at) == missed);
        assert(write_at(s, at) == missed);
        assert(arg_local_write_at(s, at) == missed);
    }
    assert(jump_at(s, at) == missed && branch_zero_at(s, at) == missed) by {
        reveal_strlit("JUMP");
        reveal_strlit("BRANCHZERO");
    }
    assert(procedure_at(s, at) == missed) by {
        reveal_strlit("FUNCTION");
        reveal_strlit("CALL");
        reveal_strlit("RET");
        reveal_strlit("INTRINSIC");
    }
    assert(register_at(s, at) == missed) by {
        reveal_strlit("PUSH");
        reveal_strlit("POP");
    }
    assert forall|i: int| at <= i < at + 13 implies is_identifier_char(#[trigger] s[i]) by {
        assert(same_letter(s[at + (i - at)], word[i - at]));
    }
    lemma_run_is(s, at, at + 13, CharClass::Identifier);
    assert(label_at(s, at) == missed);
}

/// Two characters that are the same but for the case of a letter of ASCII.
pub open spec fn same_but_for_case(a: char, b: char) -> bool {
    a == b || (is_ascii_letter(a) && is_ascii_letter(b) && (a as int == b as int + 32 || a as int
        + 32 == b as int))
}

proof fn lemma_word_survives_case(s: Seq<char>, t: Seq<char>, at: int, word: Seq<char>)
    requires
        s.len() == t.len(),
        forall|i: int| 0 <= i < s.len() ==> same_but_for_case(#[trigger] s[i], t[i]),
        is_opcode_word(word),
        word_at(s, at, word),
    ensures
        word_at(t, at, word),
{
    assert forall|i: int| 0 <= i < word.len() implies same_letter(#[trigger] t[at + i], word[i]) by {
        assert(same_letter(s[at + i], word[i]));
        assert(same_but_for_case(s[at + i], t[at + i]));
    }
    if at + word.len() < s.len() {
        assert(same_but_for_case(s[at + word.len()], t[at + word.len()]));
    }
}

/// Opcodes and the names of intrinsics are matched whatever the case of
/// their letters: a word stands in a text where it stands in any text that
/// differs from it in the case of letters alone.
pub proof fn lemma_word_ignores_case(s: Seq<char>, t: Seq<char>, at: int, word: Seq<char>)
    requires
        s.len() == t.len(),
        forall|i: int| 0 <= i < s.len() ==> same_but_for_case(#[trigger] s[i], t[i]),
        is_opcode_word(word),
    ensures
        word_at(s, at, word) == word_at(t, at, word),
{
    if word_at(s, at, word) {
        lemma_word_survives_case(s, t, at, word);
    }
    if word_at(t, at, word) {
        assert forall|i: int| 0 <= i < t.len() implies same_but_for_case(#[trigger] t[i], s[i]) by {
            assert(same_but_for_case(s[i], t[i]));
        }
        lemma_word_survives_case(t, s, at, word);
    }
}

/// Whether an instruction is written as one word: an opcode without
/// operands.
pub open spec fn is_bare(op: Op) -> bool {
    match op {
        Op::Nop
        | Op::Add
        | Op::Sub
        | Op::Mul
        | Op::Div
        | Op::Mod
        | Op::Bor
        | Op::Band
        | Op::Xor
        | Op::Or
        | Op::And
        | Op::Eq
        | Op::Lt
        | Op::Gt
        | Op::Not
        | Op::Ret => true,
        _ => false,
    }
}

/// What is read as one word, or ends in the name of an intrinsic, ends where
/// the word ends.
pub open spec fn ends_with_its_word(s: Seq<char>, parsed: Parsed<Op>) -> bool {
    parsed matches Ok((op, end)) ==> is_bare(op) || op is Intrinsic ==> !goes_on(s, end)
}

/// Opcodes are whole words. An instruction that is one word, or that ends in
/// the name of an intrinsic, is read only where no character of names and no
/// colon follows the word: `return` is no `RET`, and `notdone:` no `NOT`.
pub proof fn lemma_opcodes_are_whole_words(s: Seq<char>, at: int)
    ensures
        ends_with_its_word(s, node_at(s, at)),
{
    reveal(node_at);
    assert(ends_with_its_word(s, arithmetic_at(s, at)));
    assert(ends_with_its_word(s, variable_at(s, at)));
    assert(ends_with_its_word(s, control_at(s, at)));
    assert(ends_with_its_word(s, procedure_at(s, at)));
    assert(ends_with_its_word(s, register_at(s, at)));
}

} // verus!

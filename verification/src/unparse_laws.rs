//! What holds of the canonical text: the assembler reads it back as the
//! program that it was printed from.

use crate::grammar::{
    arithmetic_at, bare_at, between_end, call_at, control_at, digits_value, function_at, goes_on,
    identifier_at, in_class, inside_string_at, intrinsic_at, intrinsic_name_at, is_blank, is_digit,
    is_identifier_char, is_name, is_opcode_word, keyword_at, label_at, more_nodes_at,
    name_and_count_at, name_and_count_operands_at, name_operand_at, node_at, nodes_at, operands_at,
    procedure_at, program_of, register_at, reserve_at, run_end, same_letter, sconst_at, signed_at,
    signed_operand_at, string_literal_at, unsigned_at, unsigned_operand_at, variable_at, within_end,
    word_at, CharClass, ParseErrorKind, ParseFailure,
};
use crate::grammar_laws::{lemma_node_starts_with_name_char, lemma_run, lemma_run_is, lemma_within};
use crate::ir_definition::Op;
use crate::unparse::{
    decimal, escaped, intrinsic_name, printed, printed_from, printed_program, quoted,
    signed_decimal, with_operand,
};
use vstd::prelude::*;

verus! {

/// `part` stands in `s` at position `at`.
pub open spec fn stands_at(s: Seq<char>, at: int, part: Seq<char>) -> bool {
    &&& 0 <= at
    &&& at + part.len() <= s.len()
    &&& s.subrange(at, at + part.len()) == part
}

/// Where two parts stand one behind the other, each of them stands.
pub proof fn lemma_stands_split(s: Seq<char>, at: int, first: Seq<char>, second: Seq<char>)
    requires
        stands_at(s, at, first + second),
    ensures
        stands_at(s, at, first),
        stands_at(s, at + first.len(), second),
{
    let whole = first + second;
    assert(s.subrange(at, at + first.len()) =~= whole.subrange(0, first.len() as int));
    assert(whole.subrange(0, first.len() as int) =~= first);
    assert(s.subrange(at + first.len(), at + first.len() + second.len()) =~= whole.subrange(
        first.len() as int,
        whole.len() as int,
    ));
    assert(whole.subrange(first.len() as int, whole.len() as int) =~= second);
}

/// Where a part stands, each of its characters stands.
pub proof fn lemma_stands_char(s: Seq<char>, at: int, part: Seq<char>, i: int)
    requires
        stands_at(s, at, part),
        0 <= i < part.len(),
    ensures
        s[at + i] == part[i],
{
    assert(s.subrange(at, at + part.len())[i] == s[at + i]);
}

/// A word that stands in a text is found there as a keyword.
pub proof fn lemma_word_is_keyword(s: Seq<char>, at: int, word: Seq<char>)
    requires
        stands_at(s, at, word),
    ensures
        keyword_at(s, at, word),
{
    assert forall|i: int| 0 <= i < word.len() implies same_letter(#[trigger] s[at + i], word[i]) by {
        lemma_stands_char(s, at, word, i);
    }
}

/// The number that digits write depends on those digits alone.
pub proof fn lemma_digits_local(s: Seq<char>, at: int, t: Seq<char>, from: int, count: int)
    requires
        0 <= count,
        forall|i: int| 0 <= i < count ==> #[trigger] s[at + i] == t[from + i],
    ensures
        digits_value(s, at, at + count) == digits_value(t, from, from + count),
    decreases count,
{
    if count > 0 {
        lemma_digits_local(s, at, t, from, count - 1);
        assert(s[at + (count - 1)] == t[from + (count - 1)]);
    }
}

/// A number's decimal digits are digits, at least one, and write the number.
pub proof fn lemma_decimal(n: nat)
    ensures
        decimal(n).len() >= 1,
        forall|i: int| 0 <= i < decimal(n).len() ==> is_digit(#[trigger] decimal(n)[i]),
        digits_value(decimal(n), 0, decimal(n).len() as int) == n,
    decreases n,
{
    if n < 10 {
        assert(digits_value(decimal(n), 0, 0) == 0);
    } else {
        let head = decimal(n / 10);
        lemma_decimal(n / 10);
        let whole = decimal(n);
        assert forall|i: int| 0 <= i < whole.len() implies is_digit(#[trigger] whole[i]) by {
            if i < head.len() {
                assert(whole[i] == head[i]);
            }
        }
        assert forall|i: int| 0 <= i < head.len() implies #[trigger] whole[0 + i] == head[0 + i] by {}
        lemma_digits_local(whole, 0, head, 0, head.len() as int);
    }
}

/// Decimal digits in a text, with no digit behind them, are read as their
/// number.
pub proof fn lemma_decimal_reads(s: Seq<char>, at: int, n: nat)
    requires
        stands_at(s, at, decimal(n)),
        at + decimal(n).len() < s.len() ==> !is_digit(s[at + decimal(n).len()]),
    ensures
        run_end(s, at, CharClass::Digit) == at + decimal(n).len(),
        digits_value(s, at, at + decimal(n).len()) == n,
        at < at + decimal(n).len(),
        is_digit(s[at]),
{
    let digits = decimal(n);
    lemma_decimal(n);
    assert forall|i: int| 0 <= i < digits.len() implies #[trigger] s[at + i] == digits[0 + i] by {
        lemma_stands_char(s, at, digits, i);
    }
    assert forall|i: int| at <= i < at + digits.len() implies in_class(
        CharClass::Digit,
        #[trigger] s[i],
    ) by {
        assert(s[at + (i - at)] == digits[0 + (i - at)]);
    }
    lemma_run_is(s, at, at + digits.len(), CharClass::Digit);
    lemma_digits_local(s, at, digits, 0, digits.len() as int);
    assert(s[at + 0] == digits[0int + 0]);
}

/// A count in decimal digits is read as that count.
pub proof fn lemma_unsigned_reads(s: Seq<char>, at: int, n: u64)
    requires
        stands_at(s, at, decimal(n as nat)),
        at + decimal(n as nat).len() < s.len() ==> !is_digit(s[at + decimal(n as nat).len()]),
    ensures
        unsigned_at(s, at) == Ok::<(u64, int), ParseFailure>((n, at + decimal(n as nat).len())),
{
    lemma_decimal_reads(s, at, n as nat);
}

/// An integer in decimal digits, with its sign, is read as that integer.
pub proof fn lemma_signed_reads(s: Seq<char>, at: int, v: i64)
    requires
        stands_at(s, at, signed_decimal(v as int)),
        at + signed_decimal(v as int).len() < s.len() ==> !is_digit(
            s[at + signed_decimal(v as int).len()],
        ),
    ensures
        signed_at(s, at) == Ok::<(i64, int), ParseFailure>(
            (v, at + signed_decimal(v as int).len()),
        ),
        s[at] == '-' || is_digit(s[at]),
{
    if v < 0 {
        let digits = decimal((-v) as nat);
        lemma_stands_split(s, at, seq!['-'], digits);
        lemma_stands_char(s, at, seq!['-'], 0);
        lemma_decimal_reads(s, at + 1, (-v) as nat);
    } else {
        lemma_decimal_reads(s, at, v as nat);
    }
}

/// A name in a text, with no character of names behind it, is read as that
/// name.
pub proof fn lemma_name_reads(s: Seq<char>, at: int, name: Seq<char>)
    requires
        is_name(name),
        stands_at(s, at, name),
        at + name.len() < s.len() ==> !is_identifier_char(s[at + name.len()]),
    ensures
        identifier_at(s, at) == Ok::<(Seq<char>, int), ParseFailure>((name, at + name.len())),
        run_end(s, at, CharClass::Identifier) == at + name.len(),
        is_identifier_char(s[at]),
{
    assert forall|i: int| at <= i < at + name.len() implies in_class(
        CharClass::Identifier,
        #[trigger] s[i],
    ) by {
        lemma_stands_char(s, at, name, i - at);
    }
    lemma_run_is(s, at, at + name.len(), CharClass::Identifier);
}

/// What is read as a name is a name.
pub proof fn lemma_read_name_is_name(s: Seq<char>, at: int)
    requires
        0 <= at <= s.len(),
    ensures
        identifier_at(s, at) matches Ok((name, end)) ==> is_name(name) && stands_at(s, at, name)
            && end == at + name.len() && (end < s.len() ==> !is_identifier_char(s[end])),
{
    lemma_run(s, at, CharClass::Identifier);
}

/// An escaped text and a quote behind it are read as the text.
proof fn lemma_escaped_reads(s: Seq<char>, from: int, text: Seq<char>)
    requires
        stands_at(s, from, escaped(text) + seq!['"']),
    ensures
        inside_string_at(s, from) == Some((text, from + escaped(text).len())),
    decreases text.len(),
{
    let source = escaped(text) + seq!['"'];
    if text.len() == 0 {
        lemma_stands_char(s, from, source, 0);
    } else {
        let c = text[0];
        let rest = text.drop_first();
        let tail = escaped(rest) + seq!['"'];
        assert(seq![c] + rest =~= text);
        if c == '"' || c == '\\' {
            assert(source =~= seq!['\\', c] + tail);
            lemma_stands_split(s, from, seq!['\\', c], tail);
            lemma_stands_char(s, from, seq!['\\', c], 0);
            lemma_stands_char(s, from, seq!['\\', c], 1);
            lemma_escaped_reads(s, from + 2, rest);
        } else {
            assert(source =~= seq![c] + tail);
            lemma_stands_split(s, from, seq![c], tail);
            lemma_stands_char(s, from, seq![c], 0);
            lemma_escaped_reads(s, from + 1, rest);
        }
    }
}

/// A text printed as a string literal is read as that text, whatever it
/// holds.
pub proof fn lemma_quoted_reads(s: Seq<char>, at: int, text: Seq<char>)
    requires
        stands_at(s, at, quoted(text)),
    ensures
        string_literal_at(s, at) == Ok::<(Seq<char>, int), ParseFailure>(
            (text, at + quoted(text).len()),
        ),
        s[at] == '"',
{
    let inside = escaped(text) + seq!['"'];
    assert(quoted(text) =~= seq!['"'] + inside);
    lemma_stands_split(s, at, seq!['"'], inside);
    lemma_stands_char(s, at, seq!['"'], 0);
    lemma_escaped_reads(s, at + 1, text);
}

proof fn lemma_inside_is_escaped(s: Seq<char>, from: int)
    requires
        0 <= from <= s.len(),
    ensures
        inside_string_at(s, from) matches Some((text, end)) ==> from <= end <= s.len()
            && s.subrange(from, end) == escaped(text),
    decreases s.len() - from,
{
    if let Some((text, end)) = inside_string_at(s, from) {
        if from >= s.len() || s[from] == '"' {
            assert(s.subrange(from, end) =~= Seq::<char>::empty());
        } else if s[from] == '\\' {
            lemma_inside_is_escaped(s, from + 2);
            let rest = inside_string_at(s, from + 2)->Some_0.0;
            assert(text.drop_first() =~= rest);
            assert(s.subrange(from, end) =~= seq!['\\', s[from + 1]] + s.subrange(from + 2, end));
        } else {
            lemma_inside_is_escaped(s, from + 1);
            let rest = inside_string_at(s, from + 1)->Some_0.0;
            assert(text.drop_first() =~= rest);
            assert(s.subrange(from, end) =~= seq![s[from]] + s.subrange(from + 1, end));
        }
    }
}

/// Whatever is read as a string literal is the text that it is read as,
/// printed as a string literal: between the quotes, a backslash stands only
/// before a quote or a backslash, and a quote only behind a backslash.
pub proof fn lemma_literal_is_quoted(s: Seq<char>, at: int)
    ensures
        string_literal_at(s, at) matches Ok((text, end)) ==> at < end <= s.len() && s.subrange(
            at,
            end,
        ) == quoted(text),
{
    if let Ok((text, end)) = string_literal_at(s, at) {
        lemma_inside_is_escaped(s, at + 1);
        crate::grammar_laws::lemma_inside_string_end(s, at + 1);
        assert(s.subrange(at, end) =~= seq!['"'] + s.subrange(at + 1, end - 1) + seq!['"']);
    }
}

/// Behind a space that a visible character follows, the separator within an
/// instruction is that space.
pub proof fn lemma_one_space(s: Seq<char>, at: int)
    requires
        0 <= at,
        at + 1 < s.len(),
        s[at] == ' ',
        !is_blank(s[at + 1]),
        s[at + 1] != '/',
    ensures
        within_end(s, at) == at + 1,
{
    assert(within_end(s, at) == within_end(s, at + 1));
}

/// The first characters of what stands in a text.
proof fn lemma_first_letters(s: Seq<char>, at: int, part: Seq<char>)
    requires
        stands_at(s, at, part),
    ensures
        part.len() > 0 ==> s[at + 0] == part[0],
        part.len() > 1 ==> s[at + 1] == part[1],
        part.len() > 2 ==> s[at + 2] == part[2],
{
    if part.len() > 0 {
        lemma_stands_char(s, at, part, 0);
    }
    if part.len() > 1 {
        lemma_stands_char(s, at, part, 1);
    }
    if part.len() > 2 {
        lemma_stands_char(s, at, part, 2);
    }
}

/// An opcode, a space and an operand that starts with a visible character:
/// the operand is looked for right behind the space.
proof fn lemma_opcode_reads(s: Seq<char>, at: int, word: Seq<char>, operand: Seq<char>)
    requires
        stands_at(s, at, with_operand(word, operand)),
        operand.len() > 0,
        !is_blank(operand[0]),
        operand[0] != '/',
    ensures
        operands_at(s, at, word) == Ok::<((), int), ParseFailure>(((), at + word.len() + 1)),
        stands_at(s, at, word),
        s[at + word.len()] == ' ',
        stands_at(s, at + word.len() + 1, operand),
        with_operand(word, operand).len() == word.len() + 1 + operand.len(),
{
    reveal_strlit(" ");
    lemma_stands_split(s, at, word + " "@, operand);
    lemma_stands_split(s, at, word, " "@);
    lemma_stands_char(s, at + word.len(), " "@, 0);
    lemma_stands_char(s, at + word.len() + 1, operand, 0);
    lemma_word_is_keyword(s, at, word);
    lemma_one_space(s, at + word.len());
}

proof fn lemma_signed_operand_reads(s: Seq<char>, at: int, word: Seq<char>, v: i64)
    requires
        stands_at(s, at, with_operand(word, signed_decimal(v as int))),
        at + with_operand(word, signed_decimal(v as int)).len() < s.len() ==> !is_digit(
            s[at + with_operand(word, signed_decimal(v as int)).len()],
        ),
    ensures
        signed_operand_at(s, at, word) == Ok::<(i64, int), ParseFailure>(
            (v, at + with_operand(word, signed_decimal(v as int)).len()),
        ),
{
    let operand = signed_decimal(v as int);
    lemma_decimal(if v < 0 {
        (-v) as nat
    } else {
        v as nat
    });
    lemma_opcode_reads(s, at, word, operand);
    lemma_signed_reads(s, at + word.len() + 1, v);
}

proof fn lemma_unsigned_operand_reads(s: Seq<char>, at: int, word: Seq<char>, n: u64)
    requires
        stands_at(s, at, with_operand(word, decimal(n as nat))),
        at + with_operand(word, decimal(n as nat)).len() < s.len() ==> !is_digit(
            s[at + with_operand(word, decimal(n as nat)).len()],
        ),
    ensures
        unsigned_operand_at(s, at, word) == Ok::<(u64, int), ParseFailure>(
            (n, at + with_operand(word, decimal(n as nat)).len()),
        ),
{
    lemma_decimal(n as nat);
    lemma_opcode_reads(s, at, word, decimal(n as nat));
    lemma_unsigned_reads(s, at + word.len() + 1, n);
}

proof fn lemma_name_operand_reads(s: Seq<char>, at: int, word: Seq<char>, name: Seq<char>)
    requires
        is_name(name),
        stands_at(s, at, with_operand(word, name)),
        at + with_operand(word, name).len() < s.len() ==> !is_identifier_char(
            s[at + with_operand(word, name).len()],
        ),
    ensures
        name_operand_at(s, at, word) == Ok::<(Seq<char>, int), ParseFailure>(
            (name, at + with_operand(word, name).len()),
        ),
{
    lemma_opcode_reads(s, at, word, name);
    lemma_name_reads(s, at + word.len() + 1, name);
}

/// A word, a space and something: where each of the three stands.
proof fn lemma_with_operand_split(s: Seq<char>, at: int, word: Seq<char>, operand: Seq<char>)
    requires
        stands_at(s, at, with_operand(word, operand)),
    ensures
        stands_at(s, at, word),
        s[at + word.len()] == ' ',
        stands_at(s, at + word.len() + 1, operand),
        with_operand(word, operand).len() == word.len() + 1 + operand.len(),
{
    reveal_strlit(" ");
    lemma_stands_split(s, at, word + " "@, operand);
    lemma_stands_split(s, at, word, " "@);
    lemma_stands_char(s, at + word.len(), " "@, 0);
}

proof fn lemma_name_and_count_reads(s: Seq<char>, at: int, name: Seq<char>, n: u64)
    requires
        is_name(name),
        stands_at(s, at, name),
        s[at + name.len()] == ' ',
        stands_at(s, at + name.len() + 1, decimal(n as nat)),
        at + name.len() + 1 + decimal(n as nat).len() < s.len() ==> !is_digit(
            s[at + name.len() + 1 + decimal(n as nat).len()],
        ),
    ensures
        name_and_count_at(s, at) == Ok::<((Seq<char>, u64), int), ParseFailure>(
            ((name, n), at + name.len() + 1 + decimal(n as nat).len()),
        ),
{
    let digits = decimal(n as nat);
    lemma_decimal(n as nat);
    lemma_stands_char(s, at + name.len() + 1, digits, 0);
    lemma_name_reads(s, at, name);
    lemma_one_space(s, at + name.len());
    lemma_unsigned_reads(s, at + name.len() + 1, n);
}

proof fn lemma_name_and_count_operands_reads(
    s: Seq<char>,
    at: int,
    word: Seq<char>,
    name: Seq<char>,
    n: u64,
)
    requires
        is_name(name),
        stands_at(s, at, with_operand(word, with_operand(name, decimal(n as nat)))),
        at + with_operand(word, with_operand(name, decimal(n as nat))).len() < s.len()
            ==> !is_digit(s[at + with_operand(word, with_operand(name, decimal(n as nat))).len()]),
    ensures
        name_and_count_operands_at(s, at, word) == Ok::<((Seq<char>, u64), int), ParseFailure>(
            ((name, n), at + with_operand(word, with_operand(name, decimal(n as nat))).len()),
        ),
{
    let operand = with_operand(name, decimal(n as nat));
    assert(operand[0] == name[0]);
    lemma_opcode_reads(s, at, word, operand);
    lemma_with_operand_split(s, at + word.len() + 1, name, decimal(n as nat));
    lemma_name_and_count_reads(s, at + word.len() + 1, name, n);
}

/// An opcode that stands in a text as a whole word is read as its
/// instruction.
proof fn lemma_bare_reads(s: Seq<char>, at: int, word: Seq<char>, op: Op)
    requires
        stands_at(s, at, word),
        !goes_on(s, at + word.len()),
    ensures
        bare_at(s, at, word, op) == Ok::<(Op, int), ParseFailure>((op, at + word.len())),
{
    lemma_word_is_keyword(s, at, word);
}

/// Whether an instruction is one of constants, arithmetic, logic and
/// comparison.
pub open spec fn is_arithmetic(op: Op) -> bool {
    match op {
        Op::Iconst(_)
        | Op::Sconst(_)
        | Op::Nop
        | Op::Add
        | Op::Sub
        | Op::Mul
        | Op::Div
        | Op::Mod
        | Op::Bor
        | Op::Band
        | Op::Xor
        | Op::Or
        | Op::And
        | Op::Eq
        | Op::Lt
        | Op::Gt
        | Op::Not => true,
        _ => false,
    }
}

/// The printed text of an instruction stands at `at`, and a line end behind
/// it.
pub open spec fn line_at(s: Seq<char>, at: int, op: Op) -> bool {
    &&& stands_at(s, at, printed(op))
    &&& at + printed(op).len() < s.len()
    &&& s[at + printed(op).len()] == '\n'
}

proof fn lemma_printed_constant_reads(s: Seq<char>, at: int, op: Op)
    requires
        op is Iconst || op is Sconst,
        line_at(s, at, op),
    ensures
        arithmetic_at(s, at) == Ok::<(Op, int), ParseFailure>((op, at + printed(op).len())),
{
    reveal(printed);
    reveal_strlit("ICONST");
    reveal_strlit("SCONST");
    match op {
        Op::Iconst(value) => {
            lemma_signed_operand_reads(s, at, "ICONST"@, value);
        },
        Op::Sconst(text) => {
            lemma_opcode_reads(s, at, "SCONST"@, quoted(text));
            lemma_quoted_reads(s, at + 7, text);
            lemma_first_letters(s, at, "SCONST"@);
            assert(sconst_at(s, at) == Ok::<(Op, int), ParseFailure>(
                (op, at + printed(op).len()),
            ));
        },
        _ => {},
    }
}

proof fn lemma_printed_bare_reads(s: Seq<char>, at: int, op: Op)
    requires
        is_arithmetic(op),
        !(op is Iconst),
        !(op is Sconst),
        line_at(s, at, op),
    ensures
        arithmetic_at(s, at) == Ok::<(Op, int), ParseFailure>((op, at + printed(op).len())),
{
    reveal(printed);
    reveal_strlit("ICONST");
    reveal_strlit("SCONST");
    reveal_strlit("NOP");
    reveal_strlit("ADD");
    reveal_strlit("SUB");
    reveal_strlit("MUL");
    reveal_strlit("DIV");
    reveal_strlit("MOD");
    reveal_strlit("BOR");
    reveal_strlit("BAND");
    reveal_strlit("XOR");
    reveal_strlit("OR");
    reveal_strlit("AND");
    reveal_strlit("EQ");
    reveal_strlit("LT");
    reveal_strlit("GT");
    reveal_strlit("NOT");
    match op {
        Op::Nop => {
            lemma_bare_reads(s, at, "NOP"@, op);
            lemma_first_letters(s, at, "NOP"@);
        },
        Op::Add => {
            lemma_bare_reads(s, at, "ADD"@, op);
            lemma_first_letters(s, at, "ADD"@);
        },
        Op::Sub => {
            lemma_bare_reads(s, at, "SUB"@, op);
            lemma_first_letters(s, at, "SUB"@);
        },
        Op::Mul => {
            lemma_bare_reads(s, at, "MUL"@, op);
            lemma_first_letters(s, at, "MUL"@);
        },
        Op::Div => {
            lemma_bare_reads(s, at, "DIV"@, op);
            lemma_first_letters(s, at, "DIV"@);
        },
        Op::Mod => {
            lemma_bare_reads(s, at, "MOD"@, op);
            lemma_first_letters(s, at, "MOD"@);
        },
        Op::Bor => {
            lemma_bare_reads(s, at, "BOR"@, op);
            lemma_first_letters(s, at, "BOR"@);
        },
        Op::Band => {
            lemma_bare_reads(s, at, "BAND"@, op);
            lemma_first_letters(s, at, "BAND"@);
        },
        Op::Xor => {
            lemma_bare_reads(s, at, "XOR"@, op);
            lemma_first_letters(s, at, "XOR"@);
        },
        Op::Or => {
            lemma_bare_reads(s, at, "OR"@, op);
            lemma_first_letters(s, at, "OR"@);
        },
        Op::And => {
            lemma_bare_reads(s, at, "AND"@, op);
            lemma_first_letters(s, at, "AND"@);
        },
        Op::Eq => {
            lemma_bare_reads(s, at, "EQ"@, op);
            lemma_first_letters(s, at, "EQ"@);
        },
        Op::Lt => {
            lemma_bare_reads(s, at, "LT"@, op);
            lemma_first_letters(s, at, "LT"@);
        },
        Op::Gt => {
            lemma_bare_reads(s, at, "GT"@, op);
            lemma_first_letters(s, at, "GT"@);
        },
        Op::Not => {
            lemma_bare_reads(s, at, "NOT"@, op);
            lemma_first_letters(s, at, "NOT"@);
        },
        _ => {},
    }
}

/// The printed text of a constant or of an arithmetic, logic or comparison
/// instruction is read as that instruction.
proof fn lemma_printed_arithmetic_reads(s: Seq<char>, at: int, op: Op)
    requires
        is_arithmetic(op),
        line_at(s, at, op),
    ensures
        arithmetic_at(s, at) == Ok::<(Op, int), ParseFailure>((op, at + printed(op).len())),
{
    if op is Iconst || op is Sconst {
        lemma_printed_constant_reads(s, at, op);
    } else {
        lemma_printed_bare_reads(s, at, op);
    }
}

/// Whether an instruction is one on globals and locals.
pub open spec fn is_variable(op: Op) -> bool {
    op is ReserveString || op is ReserveInt || op is Read || op is Write || op is ArgLocalRead
        || op is ArgLocalWrite
}

/// Whether the names in an instruction are names.
pub open spec fn names_are_names(op: Op) -> bool {
    match op {
        Op::ReserveString { name, .. } => is_name(name),
        Op::ReserveInt { name } => is_name(name),
        Op::Read(name) => is_name(name),
        Op::Write(name) => is_name(name),
        Op::Label(label) => is_name(label),
        Op::Jump(label) => is_name(label),
        Op::BranchZero(label) => is_name(label),
        Op::Function { label, .. } => is_name(label),
        Op::Call { label, .. } => is_name(label),
        _ => true,
    }
}

/// No constant, arithmetic, logic or comparison instruction starts where the
/// first two letters of another opcode stand.
proof fn lemma_not_arithmetic(s: Seq<char>, at: int, first: char, second: char)
    requires
        0 <= at,
        at + 2 <= s.len(),
        s[at + 0] == first,
        s[at + 1] == second,
        (first == 'R' && second == 'E') || (first == 'W' && second == 'R') || (first == 'A'
            && second == 'R') || (first == 'J' && second == 'U') || (first == 'B' && second
            == 'R') || (first == 'F' && second == 'U') || (first == 'C' && second == 'A') || (
        first == 'I' && second == 'N') || (first == 'P' && second == 'U') || (first == 'P'
            && second == 'O'),
    ensures
        arithmetic_at(s, at) == Err::<(Op, int), ParseFailure>(
            ParseFailure { kind: ParseErrorKind::UnrecognizedKeyword, position: at },
        ),
{
    reveal_strlit("ICONST");
    reveal_strlit("SCONST");
    reveal_strlit("NOP");
    reveal_strlit("ADD");
    reveal_strlit("SUB");
    reveal_strlit("MUL");
    reveal_strlit("DIV");
    reveal_strlit("MOD");
    reveal_strlit("BOR");
    reveal_strlit("BAND");
    reveal_strlit("XOR");
    reveal_strlit("OR");
    reveal_strlit("AND");
    reveal_strlit("EQ");
    reveal_strlit("LT");
    reveal_strlit("GT");
    reveal_strlit("NOT");
}

proof fn lemma_printed_reserve_reads(s: Seq<char>, at: int, op: Op)
    requires
        op is ReserveString || op is ReserveInt,
        names_are_names(op),
        line_at(s, at, op),
    ensures
        reserve_at(s, at) == Ok::<(Op, int), ParseFailure>((op, at + printed(op).len())),
        s[at + 0] == 'R',
        s[at + 1] == 'E',
{
    reveal(printed);
    reveal_strlit("RESERVE");
    reveal_strlit("(null)");
    lemma_first_letters(s, at, printed(op));
    match op {
        Op::ReserveString { size, name, initial_value } => {
            let value = with_operand(decimal(size as nat), quoted(initial_value));
            let operand = with_operand(name, value);
            assert(operand[0] == name[0]);
            lemma_opcode_reads(s, at, "RESERVE"@, operand);
            let start = at + 8;
            lemma_with_operand_split(s, start, name, value);
            let number = start + name.len() + 1;
            lemma_with_operand_split(s, number, decimal(size as nat), quoted(initial_value));
            let literal = number + decimal(size as nat).len() + 1;
            lemma_quoted_reads(s, literal, initial_value);
            lemma_name_and_count_reads(s, start, name, size);
            lemma_one_space(s, literal - 1);
            assert(name_and_count_operands_at(s, at, "RESERVE"@) == Ok::<
                ((Seq<char>, u64), int),
                ParseFailure,
            >(((name, size), literal - 1)));
        },
        Op::ReserveInt { name } => {
            let value = with_operand(decimal(4), "(null)"@);
            let operand = with_operand(name, value);
            assert(operand[0] == name[0]);
            lemma_opcode_reads(s, at, "RESERVE"@, operand);
            let start = at + 8;
            lemma_with_operand_split(s, start, name, value);
            let number = start + name.len() + 1;
            lemma_with_operand_split(s, number, decimal(4), "(null)"@);
            let marker = number + decimal(4).len() + 1;
            lemma_word_is_keyword(s, marker, "(null)"@);
            lemma_stands_char(s, marker, "(null)"@, 0);
            lemma_name_and_count_reads(s, start, name, 4);
            lemma_one_space(s, marker - 1);
            assert(name_and_count_operands_at(s, at, "RESERVE"@) == Ok::<
                ((Seq<char>, u64), int),
                ParseFailure,
            >(((name, 4u64), marker - 1)));
        },
        _ => {},
    }
}

proof fn lemma_printed_access_reads(s: Seq<char>, at: int, op: Op)
    requires
        op is Read || op is Write || op is ArgLocalRead || op is ArgLocalWrite,
        names_are_names(op),
        line_at(s, at, op),
    ensures
        variable_at(s, at) == Ok::<(Op, int), ParseFailure>((op, at + printed(op).len())),
        (s[at + 0] == 'R' && s[at + 1] == 'E') || (s[at + 0] == 'W' && s[at + 1] == 'R') || (s[at
            + 0] == 'A' && s[at + 1] == 'R'),
{
    reveal(printed);
    reveal_strlit("RESERVE");
    reveal_strlit("READ");
    reveal_strlit("WRITE");
    reveal_strlit("ARGLOCAL_READ");
    reveal_strlit("ARGLOCAL_WRITE");
    match op {
        Op::Read(name) => {
            lemma_with_operand_split(s, at, "READ"@, name);
            lemma_first_letters(s, at, "READ"@);
            lemma_name_operand_reads(s, at, "READ"@, name);
        },
        Op::Write(name) => {
            lemma_with_operand_split(s, at, "WRITE"@, name);
            lemma_first_letters(s, at, "WRITE"@);
            lemma_name_operand_reads(s, at, "WRITE"@, name);
        },
        Op::ArgLocalRead(index) => {
            lemma_with_operand_split(s, at, "ARGLOCAL_READ"@, decimal(index as nat));
            lemma_first_letters(s, at, "ARGLOCAL_READ"@);
            lemma_unsigned_operand_reads(s, at, "ARGLOCAL_READ"@, index);
        },
        Op::ArgLocalWrite(index) => {
            lemma_with_operand_split(s, at, "ARGLOCAL_WRITE"@, decimal(index as nat));
            lemma_first_letters(s, at, "ARGLOCAL_WRITE"@);
            lemma_stands_char(s, at, "ARGLOCAL_WRITE"@, 9);
            lemma_unsigned_operand_reads(s, at, "ARGLOCAL_WRITE"@, index);
        },
        _ => {},
    }
}

/// The printed text of an instruction on globals or locals is read as that
/// instruction.
proof fn lemma_printed_variable_reads(s: Seq<char>, at: int, op: Op)
    requires
        is_variable(op),
        names_are_names(op),
        line_at(s, at, op),
    ensures
        node_at(s, at) == Ok::<(Op, int), ParseFailure>((op, at + printed(op).len())),
{
    reveal(node_at);
    if op is ReserveString || op is ReserveInt {
        lemma_printed_reserve_reads(s, at, op);
    } else {
        lemma_printed_access_reads(s, at, op);
    }
    lemma_not_arithmetic(s, at, s[at + 0], s[at + 1]);
}

/// No instruction on globals or locals starts where the first letters of a
/// later opcode stand.
proof fn lemma_not_variable(s: Seq<char>, at: int, first: char, second: char, third: char)
    requires
        0 <= at,
        at + 3 <= s.len(),
        s[at + 0] == first,
        s[at + 1] == second,
        s[at + 2] == third,
        (first == 'J' && second == 'U') || (first == 'B' && second == 'R') || (first == 'F'
            && second == 'U') || (first == 'C' && second == 'A') || (first == 'R' && second == 'E'
            && third == 'T') || (first == 'I' && second == 'N') || (first == 'P' && second == 'U')
            || (first == 'P' && second == 'O'),
    ensures
        variable_at(s, at) == Err::<(Op, int), ParseFailure>(
            ParseFailure { kind: ParseErrorKind::UnrecognizedKeyword, position: at },
        ),
{
    reveal_strlit("RESERVE");
    reveal_strlit("READ");
    reveal_strlit("WRITE");
    reveal_strlit("ARGLOCAL_READ");
    reveal_strlit("ARGLOCAL_WRITE");
}

/// An opcode with a space or a line end behind it declares no label.
proof fn lemma_not_label(s: Seq<char>, at: int, word: Seq<char>)
    requires
        is_name(word),
        stands_at(s, at, word),
        at + word.len() < s.len(),
        s[at + word.len()] == ' ' || s[at + word.len()] == '\n',
    ensures
        label_at(s, at) == Err::<(Op, int), ParseFailure>(
            ParseFailure { kind: ParseErrorKind::UnrecognizedKeyword, position: at },
        ),
{
    lemma_name_reads(s, at, word);
}

/// No label, jump or branch starts where a later opcode stands.
proof fn lemma_not_control(s: Seq<char>, at: int, word: Seq<char>, first: char)
    requires
        is_name(word),
        stands_at(s, at, word),
        at + word.len() < s.len(),
        s[at + word.len()] == ' ' || s[at + word.len()] == '\n',
        s[at + 0] == first,
        first == 'F' || first == 'C' || first == 'R' || first == 'I' || first == 'P',
    ensures
        control_at(s, at) == Err::<(Op, int), ParseFailure>(
            ParseFailure { kind: ParseErrorKind::UnrecognizedKeyword, position: at },
        ),
{
    reveal_strlit("JUMP");
    reveal_strlit("BRANCHZERO");
    lemma_not_label(s, at, word);
}

/// No function, call, return or intrinsic starts where `P` stands.
proof fn lemma_not_procedure(s: Seq<char>, at: int)
    requires
        0 <= at < s.len(),
        s[at + 0] == 'P',
    ensures
        procedure_at(s, at) == Err::<(Op, int), ParseFailure>(
            ParseFailure { kind: ParseErrorKind::UnrecognizedKeyword, position: at },
        ),
{
    reveal_strlit("FUNCTION");
    reveal_strlit("CALL");
    reveal_strlit("RET");
    reveal_strlit("INTRINSIC");
}

/// The printed text of a jump or a branch is read as that instruction.
proof fn lemma_printed_jump_reads(s: Seq<char>, at: int, op: Op)
    requires
        op is Jump || op is BranchZero,
        names_are_names(op),
        line_at(s, at, op),
    ensures
        node_at(s, at) == Ok::<(Op, int), ParseFailure>((op, at + printed(op).len())),
{
    reveal(node_at);
    reveal(printed);
    reveal_strlit("JUMP");
    reveal_strlit("BRANCHZERO");
    match op {
        Op::Jump(label) => {
            lemma_with_operand_split(s, at, "JUMP"@, label);
            lemma_first_letters(s, at, "JUMP"@);
            lemma_name_operand_reads(s, at, "JUMP"@, label);
            lemma_not_label(s, at, "JUMP"@);
        },
        Op::BranchZero(label) => {
            lemma_with_operand_split(s, at, "BRANCHZERO"@, label);
            lemma_first_letters(s, at, "BRANCHZERO"@);
            lemma_name_operand_reads(s, at, "BRANCHZERO"@, label);
            lemma_not_label(s, at, "BRANCHZERO"@);
        },
        _ => {},
    }
    lemma_not_arithmetic(s, at, s[at + 0], s[at + 1]);
    lemma_not_variable(s, at, s[at + 0], s[at + 1], s[at + 2]);
}

proof fn lemma_intrinsic_name_reads(s: Seq<char>, at: int, intrinsic: crate::ir_definition::Intrinsic)
    requires
        stands_at(s, at, intrinsic_name(intrinsic)),
        !goes_on(s, at + intrinsic_name(intrinsic).len()),
    ensures
        intrinsic_name_at(s, at) == Ok::<(crate::ir_definition::Intrinsic, int), ParseFailure>(
            (intrinsic, at + intrinsic_name(intrinsic).len()),
        ),
        intrinsic_name(intrinsic).len() > 0,
        'A' <= intrinsic_name(intrinsic)[0] <= 'Z',
{
    reveal_strlit("PRINT_INT");
    reveal_strlit("PRINT_STRING");
    reveal_strlit("EXIT");
    let name = intrinsic_name(intrinsic);
    lemma_word_is_keyword(s, at, name);
    lemma_first_letters(s, at, name);
    if name.len() > 6 {
        lemma_stands_char(s, at, name, 6);
    }
}

/// What the rules before functions, calls, returns and intrinsics make of
/// the text where one of those is printed: nothing.
proof fn lemma_before_procedure(s: Seq<char>, at: int, word: Seq<char>)
    requires
        is_name(word),
        stands_at(s, at, word),
        word.len() >= 3,
        at + word.len() < s.len(),
        s[at + word.len()] == ' ' || s[at + word.len()] == '\n',
        (word[0] == 'F' && word[1] == 'U') || (word[0] == 'C' && word[1] == 'A') || (word[0] == 'R'
            && word[1] == 'E' && word[2] == 'T') || (word[0] == 'I' && word[1] == 'N'),
    ensures
        arithmetic_at(s, at) is Err,
        variable_at(s, at) is Err,
        control_at(s, at) is Err,
{
    lemma_first_letters(s, at, word);
    lemma_not_arithmetic(s, at, s[at + 0], s[at + 1]);
    lemma_not_variable(s, at, s[at + 0], s[at + 1], s[at + 2]);
    lemma_not_control(s, at, word, s[at + 0]);
}

proof fn lemma_printed_function_reads(s: Seq<char>, at: int, op: Op)
    requires
        op is Function,
        names_are_names(op),
        line_at(s, at, op),
    ensures
        node_at(s, at) == Ok::<(Op, int), ParseFailure>((op, at + printed(op).len())),
{
    reveal(node_at);
    reveal(printed);
    reveal_strlit("FUNCTION");
    if let Op::Function { label, num_locs } = op {
        lemma_with_operand_split(s, at, "FUNCTION"@, with_operand(label, decimal(num_locs as nat)));
        lemma_name_and_count_operands_reads(s, at, "FUNCTION"@, label, num_locs);
        lemma_before_procedure(s, at, "FUNCTION"@);
        assert(function_at(s, at) == Ok::<(Op, int), ParseFailure>((op, at + printed(op).len())));
    }
}

proof fn lemma_printed_call_reads(s: Seq<char>, at: int, op: Op)
    requires
        op is Call,
        names_are_names(op),
        line_at(s, at, op),
    ensures
        node_at(s, at) == Ok::<(Op, int), ParseFailure>((op, at + printed(op).len())),
{
    reveal(node_at);
    reveal(printed);
    reveal_strlit("CALL");
    if let Op::Call { label, num_args } = op {
        lemma_with_operand_split(s, at, "CALL"@, with_operand(label, decimal(num_args as nat)));
        lemma_name_and_count_operands_reads(s, at, "CALL"@, label, num_args);
        lemma_before_procedure(s, at, "CALL"@);
        assert(call_at(s, at) == Ok::<(Op, int), ParseFailure>((op, at + printed(op).len())));
        assert(function_at(s, at) is Err) by {
            reveal_strlit("FUNCTION");
            lemma_first_letters(s, at, "CALL"@);
        }
    }
}

proof fn lemma_printed_ret_reads(s: Seq<char>, at: int, op: Op)
    requires
        op is Ret,
        line_at(s, at, op),
    ensures
        node_at(s, at) == Ok::<(Op, int), ParseFailure>((op, at + printed(op).len())),
{
    reveal(node_at);
    reveal(printed);
    reveal_strlit("RET");
    lemma_bare_reads(s, at, "RET"@, op);
    lemma_before_procedure(s, at, "RET"@);
    assert(function_at(s, at) is Err && call_at(s, at) is Err) by {
        reveal_strlit("FUNCTION");
        reveal_strlit("CALL");
        lemma_first_letters(s, at, "RET"@);
    }
}

proof fn lemma_printed_intrinsic_reads(s: Seq<char>, at: int, op: Op)
    requires
        op is Intrinsic,
        line_at(s, at, op),
    ensures
        node_at(s, at) == Ok::<(Op, int), ParseFailure>((op, at + printed(op).len())),
{
    reveal(node_at);
    reveal(printed);
    reveal_strlit("INTRINSIC");
    if let Op::Intrinsic(intrinsic) = op {
        lemma_with_operand_split(s, at, "INTRINSIC"@, intrinsic_name(intrinsic));
        lemma_intrinsic_name_reads(s, at + 10, intrinsic);
        lemma_opcode_reads(s, at, "INTRINSIC"@, intrinsic_name(intrinsic));
        lemma_before_procedure(s, at, "INTRINSIC"@);
        assert(intrinsic_at(s, at) == Ok::<(Op, int), ParseFailure>((op, at + printed(op).len())));
        assert(function_at(s, at) is Err && call_at(s, at) is Err && bare_at(
            s,
            at,
            "RET"@,
            Op::Ret,
        ) is Err) by {
            reveal_strlit("FUNCTION");
            reveal_strlit("CALL");
            reveal_strlit("RET");
            lemma_first_letters(s, at, "INTRINSIC"@);
        }
    }
}

/// The printed text of a push or a pop is read as that instruction.
proof fn lemma_printed_register_reads(s: Seq<char>, at: int, op: Op)
    requires
        op is Push || op is Pop,
        line_at(s, at, op),
    ensures
        node_at(s, at) == Ok::<(Op, int), ParseFailure>((op, at + printed(op).len())),
{
    reveal(node_at);
    reveal(printed);
    reveal_strlit("PUSH");
    reveal_strlit("POP");
    match op {
        Op::Push { reg } => {
            lemma_with_operand_split(s, at, "PUSH"@, signed_decimal(reg as int));
            lemma_first_letters(s, at, "PUSH"@);
            lemma_signed_operand_reads(s, at, "PUSH"@, reg);
            lemma_not_control(s, at, "PUSH"@, 'P');
        },
        Op::Pop { reg } => {
            lemma_with_operand_split(s, at, "POP"@, signed_decimal(reg as int));
            lemma_first_letters(s, at, "POP"@);
            lemma_signed_operand_reads(s, at, "POP"@, reg);
            lemma_not_control(s, at, "POP"@, 'P');
        },
        _ => {},
    }
    lemma_not_arithmetic(s, at, s[at + 0], s[at + 1]);
    lemma_not_variable(s, at, s[at + 0], s[at + 1], s[at + 2]);
    lemma_not_procedure(s, at);
}

/// Each opcode that is tried before labels is a word of capitals and
/// underscores.
proof fn lemma_opcode_words()
    ensures
        is_opcode_word("ICONST"@),
        is_opcode_word("SCONST"@),
        is_opcode_word("NOP"@),
        is_opcode_word("ADD"@),
        is_opcode_word("SUB"@),
        is_opcode_word("MUL"@),
        is_opcode_word("DIV"@),
        is_opcode_word("MOD"@),
        is_opcode_word("BOR"@),
        is_opcode_word("BAND"@),
        is_opcode_word("XOR"@),
        is_opcode_word("OR"@),
        is_opcode_word("AND"@),
        is_opcode_word("EQ"@),
        is_opcode_word("LT"@),
        is_opcode_word("GT"@),
        is_opcode_word("NOT"@),
        is_opcode_word("RESERVE"@),
        is_opcode_word("READ"@),
        is_opcode_word("WRITE"@),
        is_opcode_word("ARGLOCAL_READ"@),
        is_opcode_word("ARGLOCAL_WRITE"@),

{
    reveal_strlit("ICONST");
    reveal_strlit("SCONST");
    reveal_strlit("NOP");
    reveal_strlit("ADD");
    reveal_strlit("SUB");
    reveal_strlit("MUL");
    reveal_strlit("DIV");
    reveal_strlit("MOD");
    reveal_strlit("BOR");
    reveal_strlit("BAND");
    reveal_strlit("XOR");
    reveal_strlit("OR");
    reveal_strlit("AND");
    reveal_strlit("EQ");
    reveal_strlit("LT");
    reveal_strlit("GT");
    reveal_strlit("NOT");
    reveal_strlit("RESERVE");
    reveal_strlit("READ");
    reveal_strlit("WRITE");
    reveal_strlit("ARGLOCAL_READ");
    reveal_strlit("ARGLOCAL_WRITE");
}

/// No opcode stands as a whole word where a name with a colon behind it
/// stands: the opcode would end within the name, where the name goes on, or
/// with it, where the colon follows.
proof fn lemma_no_word_in_label(s: Seq<char>, at: int, name: Seq<char>, word: Seq<char>)
    requires
        is_name(name),
        stands_at(s, at, name + ":"@),
        is_opcode_word(word),
    ensures
        !word_at(s, at, word),
{
    reveal_strlit(":");
    let t = name + ":"@;
    let n = name.len() as int;
    lemma_stands_char(s, at, t, n);
    assert(t[n] == ':');
    if keyword_at(s, at, word) {
        if word.len() > n {
            assert(same_letter(s[at + n], word[n]));
            assert(false);
        }
        lemma_stands_char(s, at, t, word.len() as int);
        if word.len() < n {
            assert(t[word.len() as int] == name[word.len() as int]);
        }
        assert(goes_on(s, at + word.len()));
    }
}

/// Where a name with a colon behind it stands, no rule that is tried before
/// labels reads an instruction.
proof fn lemma_label_is_no_opcode(s: Seq<char>, at: int, name: Seq<char>)
    requires
        is_name(name),
        stands_at(s, at, name + ":"@),
    ensures
        arithmetic_at(s, at) is Err,
        variable_at(s, at) is Err,
{
    lemma_opcode_words();
    lemma_no_word_in_label(s, at, name, "ICONST"@);
    lemma_no_word_in_label(s, at, name, "SCONST"@);
    lemma_no_word_in_label(s, at, name, "NOP"@);
    lemma_no_word_in_label(s, at, name, "ADD"@);
    lemma_no_word_in_label(s, at, name, "SUB"@);
    lemma_no_word_in_label(s, at, name, "MUL"@);
    lemma_no_word_in_label(s, at, name, "DIV"@);
    lemma_no_word_in_label(s, at, name, "MOD"@);
    lemma_no_word_in_label(s, at, name, "BOR"@);
    lemma_no_word_in_label(s, at, name, "BAND"@);
    lemma_no_word_in_label(s, at, name, "XOR"@);
    lemma_no_word_in_label(s, at, name, "OR"@);
    lemma_no_word_in_label(s, at, name, "AND"@);
    lemma_no_word_in_label(s, at, name, "EQ"@);
    lemma_no_word_in_label(s, at, name, "LT"@);
    lemma_no_word_in_label(s, at, name, "GT"@);
    lemma_no_word_in_label(s, at, name, "NOT"@);
    lemma_no_word_in_label(s, at, name, "RESERVE"@);
    lemma_no_word_in_label(s, at, name, "READ"@);
    lemma_no_word_in_label(s, at, name, "WRITE"@);
    lemma_no_word_in_label(s, at, name, "ARGLOCAL_READ"@);
    lemma_no_word_in_label(s, at, name, "ARGLOCAL_WRITE"@);
}

/// Whether an instruction has a text that is read back as that instruction:
/// its names are names. Any name can be declared as a label, `ADD` and
/// `order` too.
pub open spec fn printable(op: Op) -> bool {
    names_are_names(op)
}

/// Any name with a colon right behind it is read as the label of that name,
/// whatever the name is: `ADD:` declares the label `ADD`, and `notdone:` the
/// label `notdone`.
pub proof fn lemma_name_with_colon_is_label(s: Seq<char>, at: int, name: Seq<char>)
    requires
        is_name(name),
        stands_at(s, at, name + ":"@),
    ensures
        node_at(s, at) == Ok::<(Op, int), ParseFailure>((Op::Label(name), at + name.len() + 1)),
{
    reveal(node_at);
    reveal_strlit(":");
    lemma_stands_split(s, at, name, ":"@);
    lemma_stands_char(s, at + name.len(), ":"@, 0);
    lemma_name_reads(s, at, name);
    lemma_label_is_no_opcode(s, at, name);
    assert(label_at(s, at) == Ok::<(Op, int), ParseFailure>(
        (Op::Label(name), at + name.len() + 1),
    ));
}

proof fn lemma_printed_label_reads(s: Seq<char>, at: int, op: Op)
    requires
        op is Label,
        printable(op),
        line_at(s, at, op),
    ensures
        node_at(s, at) == Ok::<(Op, int), ParseFailure>((op, at + printed(op).len())),
{
    reveal(printed);
    reveal_strlit(":");
    if let Op::Label(name) = op {
        lemma_name_with_colon_is_label(s, at, name);
    }
}

/// The printed text of an instruction, with a line end behind it, is read as
/// that instruction and no further.
pub proof fn lemma_printed_reads(s: Seq<char>, at: int, op: Op)
    requires
        printable(op),
        line_at(s, at, op),
    ensures
        node_at(s, at) == Ok::<(Op, int), ParseFailure>((op, at + printed(op).len())),
{
    if is_arithmetic(op) {
        lemma_printed_arithmetic_reads(s, at, op);
        reveal(node_at);
    } else if is_variable(op) {
        lemma_printed_variable_reads(s, at, op);
    } else if op is Label {
        lemma_printed_label_reads(s, at, op);
    } else if op is Jump || op is BranchZero {
        lemma_printed_jump_reads(s, at, op);
    } else if op is Function {
        lemma_printed_function_reads(s, at, op);
    } else if op is Call {
        lemma_printed_call_reads(s, at, op);
    } else if op is Ret {
        lemma_printed_ret_reads(s, at, op);
    } else if op is Intrinsic {
        lemma_printed_intrinsic_reads(s, at, op);
    } else {
        lemma_printed_register_reads(s, at, op);
    }
}

/// The printed text of an instruction starts with a character of names.
proof fn lemma_printed_starts_with_name_char(op: Op)
    requires
        names_are_names(op),
    ensures
        printed(op).len() > 0,
        is_identifier_char(printed(op)[0]),
{
    reveal(printed);
    reveal_strlit("ICONST");
    reveal_strlit("SCONST");
    reveal_strlit("NOP");
    reveal_strlit("ADD");
    reveal_strlit("SUB");
    reveal_strlit("MUL");
    reveal_strlit("DIV");
    reveal_strlit("MOD");
    reveal_strlit("BOR");
    reveal_strlit("BAND");
    reveal_strlit("XOR");
    reveal_strlit("OR");
    reveal_strlit("AND");
    reveal_strlit("EQ");
    reveal_strlit("LT");
    reveal_strlit("GT");
    reveal_strlit("NOT");
    reveal_strlit("RESERVE");
    reveal_strlit("READ");
    reveal_strlit("WRITE");
    reveal_strlit("ARGLOCAL_READ");
    reveal_strlit("ARGLOCAL_WRITE");
    reveal_strlit("JUMP");
    reveal_strlit("BRANCHZERO");
    reveal_strlit("FUNCTION");
    reveal_strlit("CALL");
    reveal_strlit("RET");
    reveal_strlit("INTRINSIC");
    reveal_strlit("PUSH");
    reveal_strlit("POP");
    if let Op::Label(label) = op {
        assert(printed(op)[0] == label[0]);
    }
}

/// A line end, with the end of the text or a character of names behind it,
/// is all of a separator between instructions.
proof fn lemma_line_end_separates(s: Seq<char>, at: int)
    requires
        0 <= at < s.len(),
        s[at] == '\n',
        at + 1 < s.len() ==> is_identifier_char(s[at + 1]),
    ensures
        between_end(s, at) == at + 1,
        between_end(s, at + 1) == at + 1,
{
    assert(between_end(s, at) == between_end(s, at + 1));
}

/// The lines of a printed program, from one that stands at `at` on, are read
/// as the instructions that they were printed from.
proof fn lemma_printed_lines_read(s: Seq<char>, at: int, ops: Seq<Op>, from: int)
    requires
        0 <= from < ops.len(),
        forall|i: int| 0 <= i < ops.len() ==> printable(#[trigger] ops[i]),
        stands_at(s, at, printed_from(ops, from)),
        at + printed_from(ops, from).len() == s.len(),
    ensures
        node_at(s, at) == Ok::<(Op, int), ParseFailure>((ops[from], at + printed(ops[from]).len())),
        more_nodes_at(s, at + printed(ops[from]).len()) == (
            ops.subrange(from + 1, ops.len() as int),
            s.len() - 1,
        ),
        is_identifier_char(s[at]),
        s[s.len() - 1] == '\n',
    decreases ops.len() - from,
{
    let op = ops[from];
    let line = printed(op);
    let rest = printed_from(ops, from + 1);
    let end = at + line.len();
    assert(printed_from(ops, from) == line + seq!['\n'] + rest);
    lemma_stands_split(s, at, line + seq!['\n'], rest);
    lemma_stands_split(s, at, line, seq!['\n']);
    lemma_stands_char(s, end, seq!['\n'], 0);
    lemma_printed_reads(s, at, op);
    lemma_printed_starts_with_name_char(op);
    lemma_stands_char(s, at, line, 0);
    if from + 1 == ops.len() {
        assert(rest.len() == 0);
        lemma_line_end_separates(s, end);
        lemma_node_starts_with_name_char(s, end + 1);
        assert(ops.subrange(from + 1, ops.len() as int) =~= Seq::<Op>::empty());
    } else {
        lemma_printed_lines_read(s, end + 1, ops, from + 1);
        lemma_line_end_separates(s, end);
        let behind = end + 1 + printed(ops[from + 1]).len();
        assert(seq![ops[from + 1]] + ops.subrange(from + 2, ops.len() as int) =~= ops.subrange(
            from + 1,
            ops.len() as int,
        ));
    }
}

/// The canonical text of a program is read back as that program, if the
/// names in it are names.
pub proof fn lemma_printed_program_reads(ops: Seq<Op>)
    requires
        forall|i: int| 0 <= i < ops.len() ==> printable(#[trigger] ops[i]),
    ensures
        program_of(printed_program(ops)) == Ok::<Seq<Op>, ParseFailure>(ops),
{
    let s = printed_program(ops);
    if ops.len() == 0 {
        assert(s.len() == 0);
        lemma_node_starts_with_name_char(s, 0);
        assert(ops =~= Seq::<Op>::empty());
        assert(nodes_at(s, 0) == (Seq::<Op>::empty(), 0int));
    } else {
        assert(s.subrange(0, s.len() as int) =~= s);
        lemma_printed_lines_read(s, 0, ops, 0);
        assert(seq![ops[0]] + ops.subrange(1, ops.len() as int) =~= ops);
        lemma_line_end_separates(s, s.len() - 1);
        assert(between_end(s, 0) == 0);
        assert(nodes_at(s, 0) == (ops, s.len() - 1));
        assert(between_end(s, s.len() - 1) == s.len());
    }
}

proof fn lemma_name_operand_is_name(s: Seq<char>, at: int, word: Seq<char>)
    ensures
        name_operand_at(s, at, word) matches Ok((name, _)) ==> is_name(name),
{
    if let Ok((_, start)) = operands_at(s, at, word) {
        lemma_within(s, at + word.len());
        lemma_read_name_is_name(s, start);
    }
}

proof fn lemma_name_and_count_operands_is_name(s: Seq<char>, at: int, word: Seq<char>)
    ensures
        name_and_count_operands_at(s, at, word) matches Ok(((name, _), _)) ==> is_name(name),
{
    if let Ok((_, start)) = operands_at(s, at, word) {
        lemma_within(s, at + word.len());
        lemma_read_name_is_name(s, start);
    }
}

proof fn lemma_arithmetic_kind(s: Seq<char>, at: int)
    ensures
        arithmetic_at(s, at) matches Ok((op, _)) ==> is_arithmetic(op),
{
}

proof fn lemma_variable_kind(s: Seq<char>, at: int)
    ensures
        variable_at(s, at) matches Ok((op, _)) ==> is_variable(op) && names_are_names(op),
{
    lemma_name_and_count_operands_is_name(s, at, "RESERVE"@);
    lemma_name_operand_is_name(s, at, "READ"@);
    lemma_name_operand_is_name(s, at, "WRITE"@);
}

proof fn lemma_control_kind(s: Seq<char>, at: int)
    ensures
        control_at(s, at) matches Ok((op, _)) ==> names_are_names(op) && (op is Label || op is Jump
            || op is BranchZero) && (op matches Op::Label(name) ==> label_at(s, at) is Ok
            && stands_at(s, at, name + ":"@)),
{
    reveal_strlit(":");
    lemma_name_operand_is_name(s, at, "JUMP"@);
    lemma_name_operand_is_name(s, at, "BRANCHZERO"@);
    if let Ok((Op::Label(name), end)) = label_at(s, at) {
        lemma_read_name_is_name(s, at);
        assert(s.subrange(at, at + name.len() + 1) =~= name + ":"@);
    }
}

proof fn lemma_procedure_kind(s: Seq<char>, at: int)
    ensures
        procedure_at(s, at) matches Ok((op, _)) ==> names_are_names(op) && !(op is Label),
{
    lemma_name_and_count_operands_is_name(s, at, "FUNCTION"@);
    lemma_name_and_count_operands_is_name(s, at, "CALL"@);
}

proof fn lemma_register_kind(s: Seq<char>, at: int)
    ensures
        register_at(s, at) matches Ok((op, _)) ==> op is Push || op is Pop,
{
}

/// Whatever is read as an instruction can be printed: its names are names.
pub proof fn lemma_read_is_printable(s: Seq<char>, at: int)
    ensures
        node_at(s, at) matches Ok((op, _)) ==> printable(op),
{
    reveal(node_at);
    lemma_arithmetic_kind(s, at);
    lemma_variable_kind(s, at);
    lemma_control_kind(s, at);
    lemma_procedure_kind(s, at);
    lemma_register_kind(s, at);
}

proof fn lemma_more_nodes_printable(s: Seq<char>, end: int)
    ensures
        forall|i: int|
            0 <= i < more_nodes_at(s, end).0.len() ==> printable(
                #[trigger] more_nodes_at(s, end).0[i],
            ),
    decreases s.len() - end,
{
    let next = between_end(s, end);
    if next > end {
        if let Ok((op, behind)) = node_at(s, next) {
            if next < behind <= s.len() {
                lemma_read_is_printable(s, next);
                lemma_more_nodes_printable(s, behind);
                let rest = more_nodes_at(s, behind).0;
                assert forall|i: int| 0 <= i < more_nodes_at(s, end).0.len() implies printable(
                    #[trigger] more_nodes_at(s, end).0[i],
                ) by {
                    if i > 0 {
                        assert(more_nodes_at(s, end).0[i] == rest[i - 1]);
                    }
                }
            }
        }
    }
}

/// Whatever is assembled can be printed.
pub proof fn lemma_assembled_is_printable(text: Seq<char>)
    ensures
        program_of(text) matches Ok(ops) ==> forall|i: int|
            0 <= i < ops.len() ==> printable(#[trigger] ops[i]),
{
    if let Ok(ops) = program_of(text) {
        let start = between_end(text, 0);
        if let Ok((op, end)) = node_at(text, start) {
            lemma_read_is_printable(text, start);
            lemma_more_nodes_printable(text, end);
            let rest = more_nodes_at(text, end).0;
            assert forall|i: int| 0 <= i < ops.len() implies printable(#[trigger] ops[i]) by {
                if i > 0 {
                    assert(ops[i] == rest[i - 1]);
                }
            }
        }
    }
}

/// Assembling is idempotent through the canonical text: a program that was
/// assembled from any text, printed and assembled again, is the same
/// program.
pub proof fn lemma_reassembling_gives_the_same(text: Seq<char>)
    ensures
        program_of(text) matches Ok(ops) ==> program_of(printed_program(ops)) == Ok::<
            Seq<Op>,
            ParseFailure,
        >(ops),
{
    if let Ok(ops) = program_of(text) {
        lemma_assembled_is_printable(text);
        lemma_printed_program_reads(ops);
    }
}

} // verus!

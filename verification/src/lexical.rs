//! The lexical primitives of the assembly syntax, on a text held as its
//! characters: runs of characters, keywords, comments, separators and
//! operands.

use crate::grammar::{
    between_end, block_comment_end, comment_close, digits_value, identifier_at, in_class,
    inside_string_at, intrinsic_name_at, is_digit, keyword_at, line_comment_end, name_and_count_at,
    operands_at, parsed_as, run_end, same_letter, signed_at, string_literal_at, tells,
    unicode_alphanumeric, unsigned_at, within_end, word_at, CharClass, ParseError, ParseErrorKind,
};
use crate::grammar_laws::{lemma_comment_close, lemma_digits_grow, lemma_run};
use crate::ir_definition::Intrinsic;
use vstd::prelude::*;
use vstd::string::StrSliceExecFns;

verus! {

/// `char::is_alphanumeric`: whether the character is a letter or a number.
#[verifier::external_body]
fn is_alphanumeric(c: char) -> (answer: bool)
    ensures
        answer == unicode_alphanumeric(c),
{
    c.is_alphanumeric()
}

/// `String::push`: the character is appended to the text.
#[verifier::external_body]
pub(crate) fn push_char(text: &mut String, c: char)
    ensures
        final(text)@ == old(text)@.push(c),
{
    text.push(c)
}

/// The characters of a text.
pub fn chars_of(text: &str) -> (chars: Vec<char>)
    ensures
        chars@ == text@,
{
    let mut chars: Vec<char> = Vec::new();
    for c in it: text.chars()
        invariant
            chars@ == it.seq().take(it.index() as int),
    {
        chars.push(c);
    }
    chars
}

/// The text that the characters from `from` to `to` make.
pub(crate) fn text_of(input: &[char], from: usize, to: usize) -> (text: String)
    requires
        from <= to <= input@.len(),
    ensures
        text@ == input@.subrange(from as int, to as int),
{
    let mut text = String::new();
    let mut at = from;
    while at < to
        invariant
            from <= at <= to <= input@.len(),
            text@ == input@.subrange(from as int, at as int),
        decreases to - at,
    {
        push_char(&mut text, input[at]);
        at += 1;
        assert(text@ =~= input@.subrange(from as int, at as int));
    }
    text
}

/// Whether a character belongs to a class.
pub(crate) fn belongs(class: CharClass, c: char) -> (answer: bool)
    ensures
        answer == in_class(class, c),
{
    match class {
        CharClass::Identifier => {
            c == '$' || c == '_' || if c <= '\x7f' {
                (c >= '0' && c <= '9') || (c >= 'a' && c <= 'z') || (c >= 'A' && c <= 'Z')
            } else {
                is_alphanumeric(c)
            }
        },
        CharClass::Digit => c >= '0' && c <= '9',
        CharClass::Line => !(c == '\n' || c == '\r'),
    }
}

/// Where the longest run of characters of `class` that starts at `from` ends.
pub(crate) fn scan_run(input: &[char], from: usize, class: CharClass) -> (end: usize)
    requires
        from <= input@.len(),
    ensures
        end == run_end(input@, from as int, class),
        from <= end <= input@.len(),
{
    let mut end = from;
    while end < input.len() && belongs(class, input[end])
        invariant
            from <= end <= input@.len(),
            run_end(input@, from as int, class) == run_end(input@, end as int, class),
        decreases input@.len() - end,
    {
        end += 1;
    }
    end
}

/// Where `word` ends if it stands at `at`, whatever the case of its letters.
pub(crate) fn keyword(input: &[char], at: usize, word: &str) -> (end: Option<usize>)
    requires
        at <= input@.len(),
    ensures
        end is Some == keyword_at(input@, at as int, word@),
        end matches Some(behind) ==> behind == at + word@.len() && behind <= input@.len(),
{
    let length = word.unicode_len();
    if length > input.len() - at {
        return None;
    }
    let mut i: usize = 0;
    while i < length
        invariant
            i <= length,
            length == word@.len(),
            at + length <= input.len(),
            forall|j: int| 0 <= j < i ==> same_letter(#[trigger] input@[at + j], word@[j]),
        decreases length - i,
    {
        let k = word.get_char(i);
        let c = input[at + i];
        let same = c == k || (k >= 'A' && k <= 'Z' && c >= 'a' && c <= 'z' && c as u32 == k as u32
            + 32) || (k >= 'a' && k <= 'z' && c >= 'A' && c <= 'Z' && c as u32 + 32 == k as u32);
        if !same {
            assert(!same_letter(input@[at + i], word@[i as int]));
            return None;
        }
        i += 1;
    }
    Some(at + length)
}

/// Where `word` ends if it stands at `at` as a whole word, whatever the case
/// of its letters.
pub(crate) fn whole_word(input: &[char], at: usize, word: &str) -> (end: Option<usize>)
    requires
        at <= input@.len(),
    ensures
        end is Some == word_at(input@, at as int, word@),
        end matches Some(behind) ==> behind == at + word@.len() && behind <= input@.len(),
{
    match keyword(input, at, word) {
        Some(end) => {
            if end < input.len() && (input[end] == ':' || belongs(CharClass::Identifier, input[end])) {
                None
            } else {
                Some(end)
            }
        },
        None => None,
    }
}

/// Where the block comment that starts at `at` ends, if one starts there.
pub(crate) fn block_comment(input: &[char], at: usize) -> (end: Option<usize>)
    requires
        at <= input@.len(),
    ensures
        match block_comment_end(input@, at as int) {
            Some(behind) => end == Some(behind as usize) && at + 4 <= behind <= input@.len(),
            None => end is None,
        },
{
    let length = input.len();
    if length - at < 2 || input[at] != '/' || input[at + 1] != '*' {
        return None;
    }
    let mut from = at + 2;
    proof {
        lemma_comment_close(input@, from as int);
    }
    while length - from >= 2
        invariant
            at + 2 <= from <= length,
            length == input@.len(),
            block_comment_end(input@, at as int) == comment_close(input@, from as int),
        decreases length - from,
    {
        if input[from] == '*' && input[from + 1] == '/' {
            return Some(from + 2);
        }
        from += 1;
    }
    None
}

/// Where the line comment that starts at `at` ends, if one starts there.
pub(crate) fn line_comment(input: &[char], at: usize) -> (end: Option<usize>)
    requires
        at <= input@.len(),
    ensures
        match line_comment_end(input@, at as int) {
            Some(behind) => end == Some(behind as usize) && at < behind <= input@.len(),
            None => end is None,
        },
{
    if at < input.len() && input[at] == '#' {
        Some(scan_run(input, at + 1, CharClass::Line))
    } else {
        None
    }
}

/// Where the separator between the parts of one instruction ends.
pub(crate) fn skip_within(input: &[char], from: usize) -> (end: usize)
    requires
        from <= input@.len(),
    ensures
        end == within_end(input@, from as int),
        from <= end <= input@.len(),
{
    let mut at = from;
    loop
        invariant
            from <= at <= input@.len(),
            within_end(input@, from as int) == within_end(input@, at as int),
        decreases input@.len() - at,
    {
        if at < input.len() && (input[at] == ' ' || input[at] == '\t') {
            at += 1;
        } else {
            match block_comment(input, at) {
                Some(end) => {
                    at = end;
                },
                None => {
                    return at;
                },
            }
        }
    }
}

/// Where the separator between two instructions ends.
pub(crate) fn skip_between(input: &[char], from: usize) -> (end: usize)
    requires
        from <= input@.len(),
    ensures
        end == between_end(input@, from as int),
        from <= end <= input@.len(),
{
    let mut at = from;
    loop
        invariant
            from <= at <= input@.len(),
            between_end(input@, from as int) == between_end(input@, at as int),
        decreases input@.len() - at,
    {
        if at < input.len() && (input[at] == ' ' || input[at] == '\t' || input[at] == '\n'
            || input[at] == '\r') {
            at += 1;
        } else {
            match block_comment(input, at) {
                Some(end) => {
                    at = end;
                },
                None => match line_comment(input, at) {
                    Some(end) => {
                        at = end;
                    },
                    None => {
                        return at;
                    },
                },
            }
        }
    }
}

/// The number that the digits from `from` to `to` write, if it is at most
/// `limit`.
fn digits(input: &[char], from: usize, to: usize, limit: u64) -> (value: Option<u64>)
    requires
        from <= to <= input@.len(),
        forall|i: int| from <= i < to ==> is_digit(#[trigger] input@[i]),
    ensures
        match value {
            Some(number) => number == digits_value(input@, from as int, to as int) && number
                <= limit,
            None => digits_value(input@, from as int, to as int) > limit,
        },
{
    let mut number: u64 = 0;
    let mut at = from;
    while at < to
        invariant
            from <= at <= to <= input@.len(),
            forall|i: int| from <= i < to ==> is_digit(#[trigger] input@[i]),
            number == digits_value(input@, from as int, at as int),
            number <= limit,
        decreases to - at,
    {
        let c = input[at];
        assert(is_digit(input@[at as int]));
        let digit = (c as u32 - '0' as u32) as u64;
        if digit > limit || number > (limit - digit) / 10 {
            proof {
                lemma_digits_grow(input@, from as int, at + 1, to as int);
            }
            return None;
        }
        number = number * 10 + digit;
        at += 1;
    }
    Some(number)
}

/// Parses a count, index or size at `at`.
pub(crate) fn unsigned(input: &[char], at: usize) -> (result: Result<(u64, usize), ParseError>)
    requires
        at <= input@.len(),
    ensures
        parsed_as(result, unsigned_at(input@, at as int)),
        result matches Ok((_, end)) ==> at < end <= input@.len(),
{
    let end = scan_run(input, at, CharClass::Digit);
    proof {
        lemma_run(input@, at as int, CharClass::Digit);
    }
    if end == at {
        if at < input.len() && input[at] == '-' {
            return Err(ParseError { kind: ParseErrorKind::NegativeValue, position: at });
        }
        return Err(ParseError { kind: ParseErrorKind::MissingOperand, position: at });
    }
    match digits(input, at, end, u64::MAX) {
        Some(value) => Ok((value, end)),
        None => Err(ParseError { kind: ParseErrorKind::MalformedLiteral, position: at }),
    }
}

/// Parses a signed integer at `at`.
pub(crate) fn signed(input: &[char], at: usize) -> (result: Result<(i64, usize), ParseError>)
    requires
        at <= input@.len(),
    ensures
        parsed_as(result, signed_at(input@, at as int)),
        result matches Ok((_, end)) ==> at < end <= input@.len(),
{
    let negative = at < input.len() && input[at] == '-';
    let start = if at < input.len() && (input[at] == '-' || input[at] == '+') {
        at + 1
    } else {
        at
    };
    let end = scan_run(input, start, CharClass::Digit);
    proof {
        lemma_run(input@, start as int, CharClass::Digit);
    }
    if end == start {
        return Err(ParseError { kind: ParseErrorKind::MissingOperand, position: at });
    }
    if negative {
        match digits(input, start, end, 0x8000_0000_0000_0000) {
            Some(magnitude) => {
                let value: i64 = if magnitude == 0x8000_0000_0000_0000 {
                    i64::MIN
                } else {
                    -(magnitude as i64)
                };
                Ok((value, end))
            },
            None => Err(ParseError { kind: ParseErrorKind::MalformedLiteral, position: at }),
        }
    } else {
        match digits(input, start, end, 0x7fff_ffff_ffff_ffff) {
            Some(magnitude) => Ok((magnitude as i64, end)),
            None => Err(ParseError { kind: ParseErrorKind::MalformedLiteral, position: at }),
        }
    }
}

/// Parses a name at `at`.
pub(crate) fn name(input: &[char], at: usize) -> (result: Result<(String, usize), ParseError>)
    requires
        at <= input@.len(),
    ensures
        parsed_as(result, identifier_at(input@, at as int)),
        result matches Ok((_, end)) ==> at < end <= input@.len(),
{
    let end = scan_run(input, at, CharClass::Identifier);
    if end == at {
        return Err(ParseError { kind: ParseErrorKind::MissingOperand, position: at });
    }
    Ok((text_of(input, at, end), end))
}

/// What a string literal's text is, given the characters already read and
/// what the rest holds.
pub open spec fn continued(done: Seq<char>, rest: Option<(Seq<char>, int)>) -> Option<
    (Seq<char>, int),
> {
    match rest {
        Some((text, end)) => Some((done + text, end)),
        None => None,
    }
}

/// Reads the text of a string literal from `from` on, up to the quote that
/// closes it or to the end of the input.
pub(crate) fn string_text(input: &[char], from: usize) -> (result: Option<(String, usize)>)
    requires
        from <= input@.len(),
    ensures
        match inside_string_at(input@, from as int) {
            Some((text, end)) => result matches Some((read, behind)) && read@ == text && behind
                == end,
            None => result is None,
        },
        result matches Some((_, end)) ==> from <= end <= input@.len() && (end < input@.len()
            ==> input@[end as int] == '"'),
{
    let mut text = String::new();
    let mut at = from;
    proof {
        assert(forall|rest: Seq<char>| Seq::<char>::empty() + rest =~= rest);
    }
    loop
        invariant
            from <= at <= input@.len(),
            inside_string_at(input@, from as int) == continued(
                text@,
                inside_string_at(input@, at as int),
            ),
        decreases input@.len() - at,
    {
        if at >= input.len() || input[at] == '"' {
            proof {
                assert(text@ + Seq::<char>::empty() =~= text@);
            }
            return Some((text, at));
        }
        let ghost done = text@;
        let c = input[at];
        if c == '\\' {
            if at + 1 < input.len() && (input[at + 1] == '"' || input[at + 1] == '\\') {
                let escaped = input[at + 1];
                push_char(&mut text, escaped);
                proof {
                    match inside_string_at(input@, at + 2) {
                        Some((rest, _)) => {
                            assert(done.push(escaped) + rest =~= done + (seq![escaped] + rest));
                        },
                        None => {},
                    }
                }
                at += 2;
            } else {
                return None;
            }
        } else {
            push_char(&mut text, c);
            proof {
                match inside_string_at(input@, at + 1) {
                    Some((rest, _)) => {
                        assert(done.push(c) + rest =~= done + (seq![c] + rest));
                    },
                    None => {},
                }
            }
            at += 1;
        }
    }
}

/// Parses a string literal at `at`.
pub(crate) fn literal(input: &[char], at: usize) -> (result: Result<(String, usize), ParseError>)
    requires
        at <= input@.len(),
    ensures
        parsed_as(result, string_literal_at(input@, at as int)),
        result matches Ok((_, end)) ==> at < end <= input@.len(),
{
    if at >= input.len() || input[at] != '"' {
        return Err(ParseError { kind: ParseErrorKind::MissingOperand, position: at });
    }
    match string_text(input, at + 1) {
        Some((text, end)) => {
            if end < input.len() {
                Ok((text, end + 1))
            } else {
                Err(ParseError { kind: ParseErrorKind::MalformedLiteral, position: at })
            }
        },
        None => Err(ParseError { kind: ParseErrorKind::MalformedLiteral, position: at }),
    }
}

/// Parses the name of an intrinsic at `at`.
pub(crate) fn intrinsic_name(input: &[char], at: usize) -> (result: Result<
    (Intrinsic, usize),
    ParseError,
>)
    requires
        at <= input@.len(),
    ensures
        parsed_as(result, intrinsic_name_at(input@, at as int)),
        result matches Ok((_, end)) ==> at <= end <= input@.len(),
{
    if let Some(end) = whole_word(input, at, "PRINT_INT") {
        Ok((Intrinsic::PrintInt, end))
    } else if let Some(end) = whole_word(input, at, "PRINT_STRING") {
        Ok((Intrinsic::PrintString, end))
    } else if let Some(end) = whole_word(input, at, "EXIT") {
        Ok((Intrinsic::Exit, end))
    } else if at >= input.len() {
        Err(ParseError { kind: ParseErrorKind::MissingOperand, position: at })
    } else {
        Err(ParseError { kind: ParseErrorKind::UnrecognizedKeyword, position: at })
    }
}

/// Where the operands of the instruction at `at` start, if its opcode is
/// `word`.
pub(crate) fn operands(input: &[char], at: usize, word: &str) -> (result: Result<usize, ParseError>)
    requires
        at <= input@.len(),
    ensures
        match operands_at(input@, at as int, word@) {
            Ok((_, start)) => result matches Ok(found) && found == start,
            Err(failure) => result matches Err(error) && tells(error, failure),
        },
        result matches Ok(start) ==> at + word@.len() <= start <= input@.len(),
{
    match whole_word(input, at, word) {
        Some(end) => Ok(skip_within(input, end)),
        None => Err(ParseError { kind: ParseErrorKind::UnrecognizedKeyword, position: at }),
    }
}

/// Parses a name and, behind a separator, a count.
pub(crate) fn name_and_count(input: &[char], at: usize) -> (result: Result<
    (String, u64, usize),
    ParseError,
>)
    requires
        at <= input@.len(),
    ensures
        match name_and_count_at(input@, at as int) {
            Ok(((name, count), end)) => result matches Ok((read, number, behind)) && read@ == name
                && number == count && behind == end,
            Err(failure) => result matches Err(error) && tells(error, failure),
        },
        result matches Ok((_, _, end)) ==> at < end <= input@.len(),
{
    match name(input, at) {
        Err(error) => Err(error),
        Ok((text, behind)) => {
            let start = skip_within(input, behind);
            match unsigned(input, start) {
                Err(error) => Err(error),
                Ok((count, end)) => Ok((text, count, end)),
            }
        },
    }
}

} // verus!

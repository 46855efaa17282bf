use aves_ir::assemble::{
    identifier, inside_string, multi_line_comment, node, program, single_line_comment,
    string_literal,
};
use aves_ir::grammar::{ParseError, ParseErrorKind};
use aves_ir::ir_definition::{Instruction, Intrinsic, Label};

fn failure(kind: ParseErrorKind, position: usize) -> ParseError {
    ParseError { kind, position }
}

#[test]
fn add_leaves_what_follows() {
    assert_eq!(node("ADD "), Ok((" ", Instruction::Add)));
    assert_eq!(node("ADD"), Ok(("", Instruction::Add)));
    assert_eq!(node("ADD\n"), Ok(("\n", Instruction::Add)));
    assert_eq!(node("ADD # comment"), Ok((" # comment", Instruction::Add)));
}

#[test]
fn leading_blank_is_rejected() {
    for input in [" ADD", "\tADD", "\nADD", "\rADD", " ICONST 1", " L0:", " ", ""] {
        assert_eq!(node(input), Err(failure(ParseErrorKind::UnrecognizedKeyword, 0)));
    }
    assert_eq!(node("/* c */ADD"), Err(failure(ParseErrorKind::UnrecognizedKeyword, 0)));
    assert_eq!(node("#ADD"), Err(failure(ParseErrorKind::UnrecognizedKeyword, 0)));
}

#[test]
fn trailing_whitespace_is_never_consumed() {
    let inputs = [
        "ICONST 5 ",
        "SCONST \"a \" ",
        "RESERVE x 4 (null) ",
        "RESERVE x 4 \"v\"\t",
        "READ x\n",
        "ARGLOCAL_READ 0 \n",
        "L0: ",
        "CALL f 2  ",
        "RET\r\n",
        "INTRINSIC EXIT ",
        "POP -1 ",
    ];
    for input in inputs {
        let (rest, _) = node(input).unwrap();
        let consumed = &input[..input.len() - rest.len()];
        assert!(!consumed.ends_with(|c: char| c == ' ' || c == '\t' || c == '\n' || c == '\r'));
        assert!(rest.starts_with(|c: char| c == ' ' || c == '\t' || c == '\n' || c == '\r'));
    }
}

#[test]
fn escapes_are_resolved() {
    assert_eq!(string_literal("\"a\\\"b\""), Ok(("", "a\"b".to_string())));
    assert_eq!(string_literal("\"\""), Ok(("", String::new())));
    assert_eq!(string_literal("\"a\\\\b\" rest"), Ok((" rest", "a\\b".to_string())));
    assert_eq!(string_literal("\"\\\\\\\"\""), Ok(("", "\\\"".to_string())));
}

#[test]
fn other_escapes_do_not_match() {
    assert_eq!(string_literal("\"a\\nb\""), Err(failure(ParseErrorKind::MalformedLiteral, 0)));
    assert_eq!(string_literal("\"a\\tb\""), Err(failure(ParseErrorKind::MalformedLiteral, 0)));
    assert_eq!(string_literal("\"\\x\""), Err(failure(ParseErrorKind::MalformedLiteral, 0)));
    // A backslash at the very end escapes nothing.
    assert_eq!(string_literal("\"abc\\"), Err(failure(ParseErrorKind::MalformedLiteral, 0)));
    // Behind a good escape a bad one still fails.
    assert_eq!(
        string_literal("\"\\\\ \\n\""),
        Err(failure(ParseErrorKind::MalformedLiteral, 0))
    );
    assert_eq!(
        node("SCONST \"a\\nb\""),
        Err(failure(ParseErrorKind::MalformedLiteral, 7))
    );
    assert_eq!(inside_string("a\\nb"), Ok(("a\\nb", String::new())));
}

#[test]
fn unclosed_literal_is_malformed() {
    assert_eq!(string_literal("\"abc"), Err(failure(ParseErrorKind::MalformedLiteral, 0)));
    assert_eq!(string_literal("\""), Err(failure(ParseErrorKind::MalformedLiteral, 0)));
    assert_eq!(string_literal("abc\""), Err(failure(ParseErrorKind::MissingOperand, 0)));
    assert_eq!(string_literal(""), Err(failure(ParseErrorKind::MissingOperand, 0)));
    // The escaped quote does not close the literal.
    assert_eq!(string_literal("\"abc\\\""), Err(failure(ParseErrorKind::MalformedLiteral, 0)));
}

#[test]
fn arglocal_read_takes_an_index_only() {
    assert_eq!(node("ARGLOCAL_READ 7"), Ok(("", Instruction::ArgLocalRead(7))));
    assert_eq!(
        node("ARGLOCAL_READ -1"),
        Err(failure(ParseErrorKind::NegativeValue, 14))
    );
    assert_eq!(
        node("ARGLOCAL_READ illegal_named_local"),
        Err(failure(ParseErrorKind::MissingOperand, 14))
    );
    assert_eq!(
        node("ARGLOCAL_READ /* here */ -1"),
        Err(failure(ParseErrorKind::NegativeValue, 25))
    );
    assert_eq!(node("ARGLOCAL_READ"), Err(failure(ParseErrorKind::MissingOperand, 13)));
    assert_eq!(node("ARGLOCAL_READ +1"), Err(failure(ParseErrorKind::MissingOperand, 14)));
    assert_eq!(
        node("ARGLOCAL_WRITE -2340"),
        Err(failure(ParseErrorKind::NegativeValue, 15))
    );
    // Without a separator the whole is a name, and with a colon a label.
    assert_eq!(
        node("ARGLOCAL_READx:"),
        Ok(("", Instruction::Label(Label::named("ARGLOCAL_READx"))))
    );
    assert_eq!(
        node("ARGLOCAL_READx"),
        Err(failure(ParseErrorKind::UnrecognizedKeyword, 0))
    );
    assert_eq!(node("ARGLOCAL_READ-1"), Err(failure(ParseErrorKind::NegativeValue, 13)));
}

#[test]
fn integers_are_range_checked() {
    assert_eq!(
        node("ICONST 9223372036854775807"),
        Ok(("", Instruction::Iconst(i64::MAX)))
    );
    assert_eq!(
        node("ICONST -9223372036854775808"),
        Ok(("", Instruction::Iconst(i64::MIN)))
    );
    assert_eq!(
        node("ICONST 9223372036854775808"),
        Err(failure(ParseErrorKind::MalformedLiteral, 7))
    );
    assert_eq!(
        node("ICONST -9223372036854775809"),
        Err(failure(ParseErrorKind::MalformedLiteral, 7))
    );
    assert_eq!(
        node("ARGLOCAL_READ 18446744073709551615"),
        Ok(("", Instruction::ArgLocalRead(u64::MAX)))
    );
    assert_eq!(
        node("ARGLOCAL_READ 18446744073709551616"),
        Err(failure(ParseErrorKind::MalformedLiteral, 14))
    );
    assert_eq!(
        node("ICONST 000000000000000000000000000012"),
        Ok(("", Instruction::Iconst(12)))
    );
    assert_eq!(node("ICONST +5"), Ok(("", Instruction::Iconst(5))));
    assert_eq!(node("ICONST -0"), Ok(("", Instruction::Iconst(0))));
    assert_eq!(node("ICONST -"), Err(failure(ParseErrorKind::MissingOperand, 7)));
    assert_eq!(node("ICONST 12ab"), Ok(("ab", Instruction::Iconst(12))));
}

#[test]
fn integers_are_read_as_nom_reads_them() {
    let inputs = [
        "0",
        "7",
        "-7",
        "+7",
        "0012",
        "9223372036854775807",
        "9223372036854775808",
        "-9223372036854775808",
        "-9223372036854775809",
        "18446744073709551615",
        "18446744073709551616",
        "12ab",
        "-",
        "+",
        "",
        "x",
        ".5",
    ];
    for input in inputs {
        let signed = nom::character::complete::i64::<&str, nom::error::Error<&str>>(input);
        let text = format!("PUSH {input}");
        let ours = node(&text);
        match signed {
            Ok((rest, value)) => assert_eq!(ours, Ok((rest, Instruction::Push { reg: value }))),
            Err(_) => assert!(ours.is_err()),
        }
        let unsigned = nom::character::complete::u64::<&str, nom::error::Error<&str>>(input);
        let text = format!("ARGLOCAL_WRITE {input}");
        let ours = node(&text);
        match unsigned {
            Ok((rest, value)) => assert_eq!(ours, Ok((rest, Instruction::ArgLocalWrite(value)))),
            Err(_) => assert!(ours.is_err()),
        }
    }
}

#[test]
fn keywords_match_as_nom_matches_them() {
    let inputs = [
        "ret", "Ret", "rEt", "RET", "re", "r\u{212a}t", "RET ", "ret\n", "RET)", "ret#", "RET-",
        "\u{212a}", "k",
    ];
    for input in inputs {
        let theirs =
            nom::bytes::complete::tag_no_case::<&str, &str, nom::error::Error<&str>>("RET")(input);
        let ours = node(input);
        match theirs {
            Ok((rest, _)) => assert_eq!(ours, Ok((rest, Instruction::Ret))),
            Err(_) => assert!(ours.is_err()),
        }
    }
}

#[test]
fn opcodes_are_whole_words() {
    // Where the word goes on, it is not the opcode.
    for input in ["return", "RETURN", "retx", "ret1", "RET_", "ret$", "ret\u{e9}", "nota", "ADDSUB"] {
        assert_eq!(node(input), Err(failure(ParseErrorKind::UnrecognizedKeyword, 0)));
    }
    assert_eq!(node("ICONST50"), Err(failure(ParseErrorKind::UnrecognizedKeyword, 0)));
    assert_eq!(node("READx"), Err(failure(ParseErrorKind::UnrecognizedKeyword, 0)));
    assert_eq!(node("ARGLOCAL_READ5"), Err(failure(ParseErrorKind::UnrecognizedKeyword, 0)));
    assert_eq!(node("PUSH1"), Err(failure(ParseErrorKind::UnrecognizedKeyword, 0)));
    assert_eq!(node("INTRINSIC exits"), Err(failure(ParseErrorKind::UnrecognizedKeyword, 10)));
    assert_eq!(node("INTRINSICexit"), Err(failure(ParseErrorKind::UnrecognizedKeyword, 0)));
    assert_eq!(
        node("INTRINSIC print_integer"),
        Err(failure(ParseErrorKind::UnrecognizedKeyword, 10))
    );
    // Where anything else follows, it is.
    assert_eq!(node("ret urn"), Ok((" urn", Instruction::Ret)));
    assert_eq!(node("NOT)"), Ok((")", Instruction::Not)));
    assert_eq!(node("ICONST-5"), Ok(("", Instruction::Iconst(-5))));
    assert_eq!(node("ICONST+5"), Ok(("", Instruction::Iconst(5))));
    assert_eq!(node("intrinsic exit#"), Ok(("#", Instruction::Intrinsic(Intrinsic::Exit))));
}

#[test]
fn any_name_with_a_colon_is_a_label() {
    let names = [
        "notdone", "NOT", "not", "ADD", "order", "equal", "nop", "band", "ICONST", "ICONST5",
        "iconst50", "READ", "READx", "reserve", "RESERVE_x", "ARGLOCAL_READ", "ARGLOCAL_READ7",
        "arglocal_writex", "ret", "return", "jump", "push", "pop1", "intrinsic", "exit", "L0", "$",
        "_", "9", "\u{e9}t\u{e9}",
    ];
    for name in names {
        let declaration = format!("{name}:");
        assert_eq!(node(&declaration), Ok(("", Instruction::Label(Label::named(name)))));
        let followed = format!("{name}: x");
        assert_eq!(node(&followed), Ok((" x", Instruction::Label(Label::named(name)))));
    }
    assert_eq!(
        program("equal: Jump equal"),
        Ok(vec![
            Instruction::Label(Label::named("equal")),
            Instruction::Jump(Label::named("equal")),
        ])
    );
    assert_eq!(
        program("notdone: ADD: add Branchzero ADD"),
        Ok(vec![
            Instruction::Label(Label::named("notdone")),
            Instruction::Label(Label::named("ADD")),
            Instruction::Add,
            Instruction::BranchZero(Label::named("ADD")),
        ])
    );
    // A separator before the colon parts the two.
    assert_eq!(node("ADD :"), Ok((" :", Instruction::Add)));
    assert_eq!(node("notdone :"), Err(failure(ParseErrorKind::UnrecognizedKeyword, 0)));
}

#[test]
fn names_take_letters_and_numbers_of_any_script() {
    assert_eq!(identifier("caf\u{e9} au lait"), Ok((" au lait", "caf\u{e9}")));
    assert_eq!(identifier("\u{4e16}\u{754c}:"), Ok((":", "\u{4e16}\u{754c}")));
    assert_eq!(identifier("\u{663}x"), Ok(("", "\u{663}x")));
    assert_eq!(identifier("a\u{2192}b"), Ok(("\u{2192}b", "a")));
    assert_eq!(identifier("\u{2192}"), Err(failure(ParseErrorKind::MissingOperand, 0)));
    assert_eq!(identifier("a-b"), Ok(("-b", "a")));
    assert_eq!(identifier("-"), Err(failure(ParseErrorKind::MissingOperand, 0)));
    assert_eq!(
        node("JUMP \u{e9}t\u{e9}"),
        Ok(("", Instruction::Jump(Label::named("\u{e9}t\u{e9}"))))
    );
    for c in ['a', 'Z', '0', '9', '$', '_', '\u{e9}', '\u{4e16}', '\u{663}'] {
        assert!(identifier(&c.to_string()).is_ok());
        assert!(c == '$' || c == '_' || c.is_alphanumeric());
    }
    for c in [' ', '-', ':', '"', '#', '/', '(', '\u{7f}', '\u{2192}', '\u{a0}'] {
        assert!(identifier(&c.to_string()).is_err());
        assert!(!c.is_alphanumeric());
    }
}

#[test]
fn positions_count_characters() {
    // Five characters, nine bytes, before the offending sign.
    assert_eq!(
        program("JUMP \u{e9}t\u{e9}\nARGLOCAL_READ -1"),
        Err(failure(ParseErrorKind::NegativeValue, 23))
    );
    assert_eq!(node("\u{e9}t\u{e9}: x"), Ok((" x", Instruction::Label(Label::named("\u{e9}t\u{e9}")))));
}

#[test]
fn opcode_and_operand_need_no_separator() {
    assert_eq!(node("ICONST-50"), Ok(("", Instruction::Iconst(-50))));
    assert_eq!(node("SCONST\"s\""), Ok(("", Instruction::Sconst("s".into()))));
    assert_eq!(
        node("SCONST/* c */\"s\""),
        Ok(("", Instruction::Sconst("s".into())))
    );
    assert_eq!(node("READ/**/x"), Ok(("", Instruction::Read("x".into()))));
    assert_eq!(
        node("FUNCTION f/**/3"),
        Ok(("", Instruction::Function { label: Label::named("f"), num_locs: 3 }))
    );
}

#[test]
fn operands_do_not_span_lines() {
    assert_eq!(node("ICONST\n5"), Err(failure(ParseErrorKind::MissingOperand, 6)));
    assert_eq!(node("READ \nx"), Err(failure(ParseErrorKind::MissingOperand, 5)));
    assert_eq!(node("CALL f\n1"), Err(failure(ParseErrorKind::MissingOperand, 6)));
    // A block comment may span lines, and part the two.
    assert_eq!(node("ICONST /* one\ntwo */ 5"), Ok(("", Instruction::Iconst(5))));
    // A line comment is no separator within an instruction.
    assert_eq!(node("ICONST # five\n5"), Err(failure(ParseErrorKind::MissingOperand, 7)));
}

#[test]
fn opcodes_differ_in_their_letters() {
    assert_eq!(node("band"), Ok(("", Instruction::Band)));
    assert_eq!(node("bor"), Ok(("", Instruction::Bor)));
    assert_eq!(node("or"), Ok(("", Instruction::Or)));
    assert_eq!(node("xor"), Ok(("", Instruction::Xor)));
    assert_eq!(node("and"), Ok(("", Instruction::And)));
    assert_eq!(node("add"), Ok(("", Instruction::Add)));
    assert_eq!(node("not"), Ok(("", Instruction::Not)));
    assert_eq!(node("nop"), Ok(("", Instruction::Nop)));
    assert_eq!(node("read x"), Ok(("", Instruction::Read("x".into()))));
    assert_eq!(node("ret"), Ok(("", Instruction::Ret)));
    assert_eq!(node("arglocal_write 1"), Ok(("", Instruction::ArgLocalWrite(1))));
}

#[test]
fn reserve_takes_a_literal_or_null() {
    assert_eq!(
        node("RESERVE x 4 (NULL)"),
        Ok(("", Instruction::ReserveInt { name: "x".into() }))
    );
    assert_eq!(
        node("RESERVE x 12(null)"),
        Ok(("", Instruction::ReserveInt { name: "x".into() }))
    );
    assert_eq!(
        node("RESERVE x 3 \"\""),
        Ok(("", Instruction::ReserveString { size: 3, name: "x".into(), initial_value: "".into() }))
    );
    assert_eq!(node("RESERVE x 4"), Err(failure(ParseErrorKind::MissingOperand, 11)));
    assert_eq!(node("RESERVE x 4 "), Err(failure(ParseErrorKind::MissingOperand, 12)));
    assert_eq!(node("RESERVE x 4 null"), Err(failure(ParseErrorKind::MissingOperand, 12)));
    assert_eq!(node("RESERVE x 4 \"open"), Err(failure(ParseErrorKind::MalformedLiteral, 12)));
    assert_eq!(node("RESERVE x -4 (null)"), Err(failure(ParseErrorKind::NegativeValue, 10)));
    assert_eq!(node("RESERVE x"), Err(failure(ParseErrorKind::MissingOperand, 9)));
    assert_eq!(node("RESERVE 4"), Err(failure(ParseErrorKind::MissingOperand, 9)));
    assert_eq!(node("RESERVE"), Err(failure(ParseErrorKind::MissingOperand, 7)));
}

#[test]
fn intrinsics_are_a_closed_set() {
    assert_eq!(
        node("intrinsic Print_Int"),
        Ok(("", Instruction::Intrinsic(Intrinsic::PrintInt)))
    );
    assert_eq!(
        node("INTRINSIC print_string!"),
        Ok(("!", Instruction::Intrinsic(Intrinsic::PrintString)))
    );
    assert_eq!(node("INTRINSIC exit)"), Ok((")", Instruction::Intrinsic(Intrinsic::Exit))));
    assert_eq!(
        node("intrinsic not_an_intrinsic"),
        Err(failure(ParseErrorKind::UnrecognizedKeyword, 10))
    );
    assert_eq!(node("intrinsic"), Err(failure(ParseErrorKind::MissingOperand, 9)));
    assert_eq!(node("intrinsic "), Err(failure(ParseErrorKind::MissingOperand, 10)));
    assert_eq!(node("intrinsic print"), Err(failure(ParseErrorKind::UnrecognizedKeyword, 10)));
}

#[test]
fn each_kind_of_failure() {
    assert_eq!(node("FROB"), Err(failure(ParseErrorKind::UnrecognizedKeyword, 0)));
    assert_eq!(node("label"), Err(failure(ParseErrorKind::UnrecognizedKeyword, 0)));
    assert_eq!(node("PUSH"), Err(failure(ParseErrorKind::MissingOperand, 4)));
    assert_eq!(node("POP x"), Err(failure(ParseErrorKind::MissingOperand, 4)));
    assert_eq!(node("SCONST 5"), Err(failure(ParseErrorKind::MissingOperand, 7)));
    assert_eq!(node("SCONST \"x"), Err(failure(ParseErrorKind::MalformedLiteral, 7)));
    assert_eq!(node("CALL f -5"), Err(failure(ParseErrorKind::NegativeValue, 7)));
    assert_eq!(node("CALL f"), Err(failure(ParseErrorKind::MissingOperand, 6)));
    assert_eq!(node("JUMP"), Err(failure(ParseErrorKind::MissingOperand, 4)));
    assert_eq!(node("JUMP :"), Err(failure(ParseErrorKind::MissingOperand, 5)));
    assert_eq!(program("ADD SUB)"), Err(failure(ParseErrorKind::TrailingInput, 7)));
    assert_eq!(program("ADD\"s\""), Err(failure(ParseErrorKind::TrailingInput, 3)));
}

#[test]
fn a_program_is_a_whole_or_nothing() {
    assert_eq!(program(""), Ok(vec![]));
    assert_eq!(program(" \n\t # only a comment\n/* and another */ "), Ok(vec![]));
    assert_eq!(program("ADD"), Ok(vec![Instruction::Add]));
    assert_eq!(program("ADD SUB"), Ok(vec![Instruction::Add, Instruction::Sub]));
    assert_eq!(
        program("ADD/* no blank needed */SUB#done"),
        Ok(vec![Instruction::Add, Instruction::Sub])
    );
    assert_eq!(program("return"), Err(failure(ParseErrorKind::UnrecognizedKeyword, 0)));
    assert_eq!(program("ret)"), Err(failure(ParseErrorKind::TrailingInput, 3)));
    assert_eq!(
        program("ADD\nSUB\nFROB\nMUL"),
        Err(failure(ParseErrorKind::UnrecognizedKeyword, 8))
    );
    assert_eq!(
        program("ADD\nICONST x"),
        Err(failure(ParseErrorKind::MissingOperand, 11))
    );
    assert_eq!(
        program("  /* unclosed"),
        Err(failure(ParseErrorKind::UnrecognizedKeyword, 2))
    );
    assert_eq!(
        program("L0: Jump L0"),
        Ok(vec![Instruction::Label(Label::named("L0")), Instruction::Jump(Label::named("L0"))])
    );
    assert_eq!(
        program("SCONST \"a # no comment\" # a comment"),
        Ok(vec![Instruction::Sconst("a # no comment".into())])
    );
}

#[test]
fn comments_by_themselves() {
    assert_eq!(single_line_comment("# a\r\nb"), Ok(("\r\nb", " a")));
    assert_eq!(
        single_line_comment("x"),
        Err(failure(ParseErrorKind::UnrecognizedKeyword, 0))
    );
    assert_eq!(multi_line_comment("/*/ */x"), Ok(("x", "/ ")));
    assert_eq!(multi_line_comment("/*/"), Err(failure(ParseErrorKind::UnrecognizedKeyword, 0)));
    assert_eq!(multi_line_comment("/* /* */ */"), Ok((" */", " /* ")));
}

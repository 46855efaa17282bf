use aves_ir::assemble::{
    identifier, inside_string, multi_line_comment, node, program, single_line_comment,
    string_literal,
};
use aves_ir::ir_definition::{Instruction, Intrinsic, Label};

#[test]
fn inside_string_test() {

    assert_eq!(inside_string(""), Ok(("", "".into())));

    // A quote right at the start ends the text before anything is read.
    assert_eq!(inside_string(r#"""#), Ok(("\"", "".into())) );

    assert_eq!(inside_string(r#"\""#), Ok(("", r#"""#.into())));
    assert_eq!(
        inside_string(r#"I have some literal quotes \" \"."#),
        Ok(("", r#"I have some literal quotes " "."#.into()))
    );
    assert_eq!(
        inside_string(r"I \\ have some \\ literal \\\\ backslashes."),
        Ok(("", r"I \ have some \ literal \\ backslashes.".into()))
    );
    assert_eq!(
        inside_string(r#"Some \\ \" \"\" literal backslashes\\\\ and quotes."#),
        Ok((
            "",
            r#"Some \ " "" literal backslashes\\ and quotes."#.into()
        ))
    );

    assert_eq!(
        inside_string(r#"I don't include the unescaped quote.""#),
        Ok((r#"""#, "I don't include the unescaped quote.".into()))
    );

    assert_eq!(
        inside_string(r#"Invalid escape sequnces are simply untransformed: \n "#),
        Ok((
            r#"Invalid escape sequnces are simply untransformed: \n "#,
            "".into()
        ))
    );
    assert_eq!(
        inside_string(r#"Despite ending in a backslash, I get matched fine. This will not be accepted by the outer rule, string_literal. \"#),
        Ok((
            r#"Despite ending in a backslash, I get matched fine. This will not be accepted by the outer rule, string_literal. \"#,
            "".into()
        ))
    );
}

#[test]
fn string_literal_test() {
    assert_eq!(string_literal(r#"" ""#), Ok(("", " ".into())));
    assert_eq!(
        string_literal(r#""I don't include the unescaped quote.""#),
        Ok(("", "I don't include the unescaped quote.".into()))
    );
    assert_eq!(string_literal(r#""""#), Ok(("", "".into())));
    assert_eq!(string_literal(r#""\"""#), Ok(("", r#"""#.into())));
    assert_eq!(
        string_literal(r#""\"Around and around, good fun\"""#),
        Ok(("", r#""Around and around, good fun""#.into()))
    );
}

#[test]
fn identifier_test() {
    assert_eq!(identifier("hello"), Ok(("", "hello")));
    assert_eq!(identifier("$bruh"), Ok(("", "$bruh")));
    assert_eq!(identifier("_bruh"), Ok(("", "_bruh")));
    assert_eq!(identifier("123br21"), Ok(("", "123br21")));
    assert_eq!(identifier("hello goodbye"), Ok((" goodbye", "hello")));

    assert!(identifier("").is_err());
}

#[test]
fn noarg_nodes() {
    // Positive examples:
    assert_eq!(node("ADD "), Ok((" ", Instruction::Add)));
    assert_eq!(node("NOP"), Ok(("", Instruction::Nop)));
    assert_eq!(node("sUb   kdf"), Ok(("   kdf", Instruction::Sub)));
    assert_eq!(node("Mul "), Ok((" ", Instruction::Mul)));
    assert_eq!(node("diV  "), Ok(("  ", Instruction::Div)));
    assert_eq!(node("mod  $$04"), Ok(("  $$04", Instruction::Mod)));
    assert_eq!(node("BOR      \n"), Ok(("      \n", Instruction::Bor)));
    assert_eq!(node("bANd  "), Ok(("  ", Instruction::Band)));
    assert_eq!(node("xor"), Ok(("", Instruction::Xor)));
    assert_eq!(node("or"), Ok(("", Instruction::Or)));
    assert_eq!(node("and"), Ok(("", Instruction::And)));
    assert_eq!(node("eq"), Ok(("", Instruction::Eq)));
    assert_eq!(node("lT"), Ok(("", Instruction::Lt)));
    assert_eq!(node("gt"), Ok(("", Instruction::Gt)));
    assert_eq!(node("Not"), Ok(("", Instruction::Not)));

    // Negative examples:
    assert!(node("n ot").is_err());
    assert!(node(" div").is_err()); // Doesn't accept leading whitespace.
    assert_ne!(node("bor   "), Ok(("", Instruction::Bor))); // Doesn't accept trailing whitespace.
}

#[test]
fn iconst_sconst() {
    assert_eq!(node("ICONST 50"), Ok(("", Instruction::Iconst(50))));
    assert_eq!(
        node("SCONST \"Hello\""),
        Ok(("", Instruction::Sconst("Hello".into())))
    );
    assert_eq!(
        node("SCONST \"Hello\"\n"),
        Ok(("\n", Instruction::Sconst("Hello".into())))
    );

    assert_eq!(
        node("SCONST \"Hello I'm a string with no escapes\""),
        Ok((
            "",
            Instruction::Sconst("Hello I'm a string with no escapes".into())
        ))
    );

    assert_eq!(node("SCONST \"\""), Ok(("", Instruction::Sconst("".into()))));

    assert_eq!(
        node("SCONST \" with \n newlines\n\""),
        Ok(("", Instruction::Sconst(" with \n newlines\n".into())))
    );

    assert_eq!(
        node("sConst \" with \\\" literal quotes \\\" \""),
        Ok(("", Instruction::Sconst(" with \" literal quotes \" ".into())))
    );

    assert_eq!(
        node("SCONST \" \t with tabs and literal \\\\ backslashes\""),
        Ok((
            "",
            Instruction::Sconst(" \t with tabs and literal \\ backslashes".into())
        ))
    );
}

#[test]
fn reserve() {
    // Reserving strings:
    assert_eq!(
        node("Reserve var 10 \"Hello world\""),
        Ok((
            "",
            Instruction::ReserveString {
                size: 10,
                name: "var".into(),
                initial_value: "Hello world".into()
            }
        ))
    );

    assert_eq!(
        node("Reserve 1bruh1 20 \"I \\\\ have a bunch \n \\\" of weird stuff\"  "),
        Ok((
            "  ",
            Instruction::ReserveString {
                size: 20,
                name: "1bruh1".into(),
                initial_value: "I \\ have a bunch \n \" of weird stuff".into()
            }
        ))
    );

    // Reserving integers:
    assert_eq!(
        node("Reserve $$FREAKY_INTERNAL_COMPILER_GLOBAL$$ 4 (null)\t\n"),
        Ok((
            "\t\n",
            Instruction::ReserveInt {
                name: "$$FREAKY_INTERNAL_COMPILER_GLOBAL$$".into()
            }
        ))
    );

    assert_eq!(
        node("RESERVE $_$ 4 (null)"),
        Ok(("", Instruction::ReserveInt { name: "$_$".into() }))
    )
}

#[test]
fn variables() {
    // Globals:
    assert_eq!(node("WRITE $$$"), Ok(("", Instruction::Write("$$$".into()))));

    assert_eq!(node("READ _lkas"), Ok(("", Instruction::Read("_lkas".into()))));

    assert_eq!(
        node("read kddk\n \t"),
        Ok(("\n \t", Instruction::Read("kddk".into())))
    );

    // Locals:
    assert_eq!(
        node("ARGLOCAL_READ 200"),
        Ok(("", Instruction::ArgLocalRead(200)))
    );

    assert_eq!(
        node("ARGLOCAL_WRITE  \t 40"),
        Ok(("", Instruction::ArgLocalWrite(40)))
    );

    // Negative locals are not allowed:
    assert!(node("ARGLOCAL_READ -1").is_err());
    assert!(node("ARGLOCAL_WRITE -2340").is_err());

    // Instructions on locals do not take names:
    assert!(node("ARGLOCAL_READ illegal_named_local").is_err());
}

#[test]
fn control_flow() {
    // Label:
    assert_eq!(
        node("birch:"),
        Ok(("", Instruction::Label(Label::named("birch"))))
    );

    assert_eq!(node("Sam:"), Ok(("", Instruction::Label(Label::named("Sam")))));

    // Jump:
    assert_eq!(
        node("JUMP L0  h"),
        Ok(("  h", Instruction::Jump(Label::named("L0"))))
    );
    assert_eq!(
        node("JUMP alskdhjfa"),
        Ok(("", Instruction::Jump(Label::named("alskdhjfa"))))
    );

    // BranchZero:
    assert_eq!(
        node("branchzero l20"),
        Ok(("", Instruction::BranchZero(Label::named("l20"))))
    );
    assert_eq!(
        node("branchZERO foo\n"),
        Ok(("\n", Instruction::BranchZero(Label::named("foo"))))
    );
}

#[test]
fn functions() {
    // Function:

    assert_eq!(
        node("FuncTion no_locals 0"),
        Ok((
            "",
            Instruction::Function {
                label: Label::named("no_locals"),
                num_locs: 0
            }
        ))
    );

    assert_eq!(
        node("FUNCTION some_locals 3"),
        Ok((
            "",
            Instruction::Function {
                label: Label::named("some_locals"),
                num_locs: 3
            }
        ))
    );

    assert!(node("function negative_locs -5050").is_err());
    assert!(node("function locs_not_specified ").is_err());

    // Call:

    assert_eq!(
        node("CALL no_args 0\t\tbruh"),
        Ok((
            "\t\tbruh",
            Instruction::Call {
                label: Label::named("no_args"),
                num_args: 0
            }
        ))
    );

    assert_eq!(
        node("CALL many_args 6"),
        Ok((
            "",
            Instruction::Call {
                label: Label::named("many_args"),
                num_args: 6
            }
        ))
    );

    assert!(node("caLL negative_args -5").is_err());
    assert!(node("CALL args_not_specified\t").is_err());

    // Ret:

    assert_eq!(node("ret"), Ok(("", Instruction::Ret)));
    assert!(node("return").is_err()); // A longer word that starts like the opcode is not the opcode.

    // Intrinsic:

    assert_eq!(
        node("Intrinsic PRINT_STRING"),
        Ok(("", Instruction::Intrinsic(Intrinsic::PrintString)))
    );
    assert_eq!(
        node("INTRINSIC print_int"),
        Ok(("", Instruction::Intrinsic(Intrinsic::PrintInt)))
    );
    assert_eq!(
        node("Intrinsic exit"),
        Ok(("", Instruction::Intrinsic(Intrinsic::Exit)))
    );

    assert!(node("intrinsic not_an_intrinsic").is_err());

    assert!(node("intrinsic").is_err()); // Intrinsic not specified.
}

#[test]
fn push_pop() {
    // Push:
    assert_eq!(node("Push 1"), Ok(("", Instruction::Push { reg: 1 })));
    assert_eq!(node("PUSH 2020"), Ok(("", Instruction::Push { reg: 2020 })));

    assert!(node("PUSH").is_err()); // Bare push not allowed

    // Pop:
    assert_eq!(node("pop -1"), Ok(("", Instruction::Pop { reg: -1 })));
    assert_eq!(node("poP 2013 "), Ok((" ", Instruction::Pop { reg: 2013 })));

    assert!(node("POP").is_err()); // Bare pop not allowed
}

#[test]
fn simple_program() {
    assert_eq!(program("band"), Ok(vec![Instruction::Band]));
    assert_eq!(
        program(
            "band\n\
            bor\n\
            and\n\
            xor"
        ), // Works without terminating newline.
        Ok(vec![Instruction::Band, Instruction::Bor, Instruction::And, Instruction::Xor,])
    );
    assert_eq!(
        program(
            "band\n\
                 BOR\n\
                 And\n\
                 xOR\n"
        ), // Also works with terminating newline.
        Ok(vec![Instruction::Band, Instruction::Bor, Instruction::And, Instruction::Xor,])
    );

    // Other whitespace:
    assert_eq!(
        program(
            " band \n \
                 BOR\n \t\
                 And \n     \
                 \txOR \n"
        ), // Also works with terminating newline.
        Ok(vec![Instruction::Band, Instruction::Bor, Instruction::And, Instruction::Xor,])
    );
}

#[test]
fn slightly_more_complex_programs() {
    assert_eq!(
        program(
            "Iconst 500\n\
             Iconst 0"
        ),
        Ok(vec![Instruction::Iconst(500), Instruction::Iconst(0),])
    );

    assert_eq!(
        program(
            "Sconst \"Hello I'm a string with no escapes\"\n\
             Sconst \"with double quotes \\\" \"\n\
             Sconst    \"with \n newlines \n\" \n\
             Sconst \"\\\\ with backslashes \\\\\" \n\
             Iconst 20"
        ),
        Ok(vec![
            Instruction::Sconst("Hello I'm a string with no escapes".into()),
            Instruction::Sconst("with double quotes \" ".into()),
            Instruction::Sconst("with \n newlines \n".into()),
            Instruction::Sconst("\\ with backslashes \\".into()),
            Instruction::Iconst(20),
        ])
    );
}

#[test]
fn single_line_comment_test() {
    assert!(single_line_comment("").is_err()); // The empty string is not a single-line comment.

    // A line comment starts right with its hash: blanks before it belong to
    // the separator between instructions, not to the comment.
    assert!(single_line_comment(" #").is_err());
    assert!(single_line_comment("//").is_err()); // Two slashes start no comment.
    assert!(single_line_comment("input").is_err());

    assert_eq!(single_line_comment("#"), Ok(("", ""))); // The # is not part of the result of the comment.
    assert_eq!(single_line_comment("#  Hello"), Ok(("", "  Hello")));
    assert_eq!(single_line_comment("# Hello\n"), Ok(("\n", " Hello"))); // Single-line comments end before the first newline.
    assert_eq!(
        single_line_comment("# First single-line comment\n # Second single line comment"),
        Ok((
            "\n # Second single line comment",
            " First single-line comment"
        ))
    );
    assert_eq!(
        single_line_comment(
            "# ;laisupowielkjbo982349867q345\\ \n Oh boy this is not part of that comment"
        ),
        Ok((
            "\n Oh boy this is not part of that comment",
            " ;laisupowielkjbo982349867q345\\ "
        ))
    );
}

#[test]
fn multi_line_comment_test() {
    assert!(multi_line_comment("").is_err()); // Empty string is not a multi-line comment.
    assert!(multi_line_comment("/*").is_err()); // Multi-line comments must be terminated.

    assert_eq!(multi_line_comment("/**/"), Ok(("", ""))); // The delimiters are not part of the result of the comment.
    assert_eq!(multi_line_comment("/* */"), Ok(("", " ")));
    assert_eq!(
        multi_line_comment("/* Hello I can be anything !! sconst!*/"),
        Ok(("", " Hello I can be anything !! sconst!"))
    );
    assert_eq!(
        multi_line_comment("/* SCONST ICONST */"),
        Ok(("", " SCONST ICONST "))
    );
    assert_eq!(multi_line_comment("/* Jump */  "), Ok(("  ", " Jump ")));

    assert_eq!(multi_line_comment("/* */ */"), Ok((" */", " "))); // Multi-line comments end at the first ending delimiter.
    assert_eq!(
        multi_line_comment("/* \n\n \\n \\\" */"),
        Ok(("", " \n\n \\n \\\" "))
    ); // Nothing is special in a multi-line comment.
}

#[test]
fn programs_with_single_line_comments() {
    assert_eq!(
        program(
            r##"Sconst "Have a string, why don'tcha "
            Iconst -30 # Very important comment
            L0: sconst "\"Around and around, good fun\"" # Just like malloc! 
            JUMP L0 
            # This next bit is incredibly confusing, but must not be changed!!!
            # TODO: Fix.
            BRANCHZERO L1
            L1:
            "##
        ),
        Ok(vec![
            Instruction::Sconst("Have a string, why don'tcha ".into()),
            Instruction::Iconst(-30),
            Instruction::Label(Label::named("L0")),
            Instruction::Sconst("\"Around and around, good fun\"".into()),
            Instruction::Jump(Label::named("L0")),
            Instruction::BranchZero(Label::named("L1")),
            Instruction::Label(Label::named("L1")),
        ])
    );
}

#[test]
fn programs_with_any_kind_of_comment() {
    assert_eq!(
        program(
            "Iconst 40\n\
             Jump L1\n\
             # Single line comment on it's own line.\n\
             \n\
             /* Multi-line comment on one line. */\n\
             \n\
             \n\
             /* Multi-line comment spanning\n\
                two lines. */\n\
             Iconst 20\n\
             Iconst 40\n\
             Add\n\
             Intrinsic print_int\n\
             Intrinsic exit"
        ),
        Ok(vec![
            Instruction::Iconst(40),
            Instruction::Jump(Label::named("L1")),
            Instruction::Iconst(20),
            Instruction::Iconst(40),
            Instruction::Add,
            Instruction::Intrinsic(Intrinsic::PrintInt),
            Instruction::Intrinsic(Intrinsic::Exit)
        ])
    );
}

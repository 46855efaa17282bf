use aves_ir::assemble::program;
use aves_ir::ir_definition::{Instruction, Intrinsic, Label};
use aves_ir::unparse::unparse;

#[test]
fn each_instruction_has_its_line() {
    let printed = unparse(&[
        Instruction::Nop,
        Instruction::Iconst(-30),
        Instruction::Iconst(0),
        Instruction::Iconst(i64::MIN),
        Instruction::Sconst("say \"hi\" \\ bye".into()),
        Instruction::Add,
        Instruction::Band,
        Instruction::ReserveString { size: 12, name: "greeting".into(), initial_value: "".into() },
        Instruction::ReserveInt { name: "$counter".into() },
        Instruction::Read("greeting".into()),
        Instruction::Write("$counter".into()),
        Instruction::ArgLocalRead(0),
        Instruction::ArgLocalWrite(u64::MAX),
        Instruction::Label(Label::named("L0")),
        Instruction::Jump(Label::named("L0")),
        Instruction::BranchZero(Label::named("L1")),
        Instruction::Function { label: Label::named("f"), num_locs: 3 },
        Instruction::Call { label: Label::named("f"), num_args: 2 },
        Instruction::Ret,
        Instruction::Intrinsic(Intrinsic::PrintInt),
        Instruction::Intrinsic(Intrinsic::PrintString),
        Instruction::Intrinsic(Intrinsic::Exit),
        Instruction::Push { reg: 1007 },
        Instruction::Pop { reg: -1 },
    ]);
    let expected = "NOP\n\
        ICONST -30\n\
        ICONST 0\n\
        ICONST -9223372036854775808\n\
        SCONST \"say \\\"hi\\\" \\\\ bye\"\n\
        ADD\n\
        BAND\n\
        RESERVE greeting 12 \"\"\n\
        RESERVE $counter 4 (null)\n\
        READ greeting\n\
        WRITE $counter\n\
        ARGLOCAL_READ 0\n\
        ARGLOCAL_WRITE 18446744073709551615\n\
        L0:\n\
        JUMP L0\n\
        BRANCHZERO L1\n\
        FUNCTION f 3\n\
        CALL f 2\n\
        RET\n\
        INTRINSIC PRINT_INT\n\
        INTRINSIC PRINT_STRING\n\
        INTRINSIC EXIT\n\
        PUSH 1007\n\
        POP -1\n";
    assert_eq!(printed, expected);
    assert_eq!(unparse(&[]), "");
}

#[test]
fn printed_text_reads_back() {
    let sources = [
        "",
        "band",
        "Iconst 20\nIconst 22\nAdd\nIntrinsic print_int\nIntrinsic exit",
        " band \n BOR\n \tAnd \n     \txOR \n",
        "Sconst \"with \n newlines \n\" \n Sconst \"\\\\ with backslashes \\\\\" \n Iconst 20",
        "L0: sconst \"\\\"Around\\\"\" # comment\n JUMP L0 /* c */ BRANCHZERO L1\nL1:",
        "Reserve var 10 \"Hello world\" RESERVE $_$ 4 (null) read var write $_$",
        "FuncTion f 3 arglocal_write 0 arglocal_read 2 ret call f 1 push -7 pop 7",
        "ICONST: read: ret: jump: \u{e9}t\u{e9}: JUMP \u{e9}t\u{e9}",
        "ICONST99999999999999999999: ARGLOCAL_READ18446744073709551616:",
        "notdone: order: ADD: add Jump order Branchzero ADD Call not 0 Function not 1",
        "not nop eq lt gt or xor mod div mul sub",
    ];
    for source in sources {
        let assembled = program(source).unwrap();
        let printed = unparse(&assembled);
        assert_eq!(program(&printed), Ok(assembled));
        // And the canonical text is a fixed point of printing.
        assert_eq!(unparse(&program(&printed).unwrap()), printed);
    }
}

#[test]
fn labels_of_any_name_read_back() {
    for name in ["order", "ADD", "notdone", "ICONST5", "READx", "ret", "return", "equal"] {
        let declared = vec![
            Instruction::Label(Label::named(name)),
            Instruction::Jump(Label::named(name)),
        ];
        assert_eq!(unparse(&declared), format!("{name}:\nJUMP {name}\n"));
        assert_eq!(program(&unparse(&declared)), Ok(declared));
    }
}

#[test]
fn what_is_no_name_does_not_read_back() {
    let unnamed = vec![Instruction::Read("two words".into())];
    assert_ne!(program(&unparse(&unnamed)), Ok(unnamed));
    let unnamed = vec![Instruction::Label(Label::named(""))];
    assert_ne!(program(&unparse(&unnamed)), Ok(unnamed));
}

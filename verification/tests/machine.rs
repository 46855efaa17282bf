use aves_ir::assemble::program;
use aves_ir::dump_bytecode::dump_bytecode;
use aves_ir::execution::{RuntimeErrorKind, Status};
use aves_ir::interpret::{
    interpret, InterpretError, Machine, ProgramStack, ProgramStackItem, Value,
};
use aves_ir::ir_definition::{Instruction, Intrinsic, Label};
use aves_ir::read_bytecode::read_bytecode;

fn run(source: &str) -> Result<(String, ProgramStack), InterpretError> {
    interpret(&program(source).unwrap(), 10_000)
}

fn ints(values: &[i64]) -> ProgramStack {
    ProgramStack(values.iter().map(|value| ProgramStackItem::Int(*value)).collect())
}

fn fails(source: &str, kind: RuntimeErrorKind, at: usize) {
    assert_eq!(run(source), Err(InterpretError::Runtime { kind, at }));
}

#[test]
fn twenty_and_twenty_two_print_forty_two() {
    let source = "Iconst 20\nIconst 22\nAdd\nIntrinsic print_int\nIntrinsic exit";
    let assembled = program(source).unwrap();
    let bytes = dump_bytecode(&assembled).unwrap();
    let loaded = read_bytecode(&bytes).unwrap();
    assert_eq!(loaded, assembled);
    assert_eq!(interpret(&loaded, 100), Ok(("42".to_string(), ints(&[]))));
    // Five steps are enough, four are not.
    assert_eq!(interpret(&loaded, 5), Ok(("42".to_string(), ints(&[]))));
    assert_eq!(interpret(&loaded, 4), Err(InterpretError::OutOfSteps));
}

#[test]
fn a_loop_runs_until_its_steps_are_used_up() {
    let looping = program("L0: Jump L0").unwrap();
    assert_eq!(interpret(&looping, 0), Err(InterpretError::OutOfSteps));
    assert_eq!(interpret(&looping, 1_000), Err(InterpretError::OutOfSteps));
    assert_eq!(interpret(&looping, 100_000), Err(InterpretError::OutOfSteps));
    // Step by step the machine goes round and round.
    let mut machine = Machine::new();
    for _ in 0..7 {
        machine.step(&looping);
        assert_eq!(machine.status, Status::Running);
        assert!(machine.pc < 2);
    }
}

#[test]
fn a_call_hands_over_its_argument_and_returns() {
    let source = "Iconst 7\n\
        Call f 1\n\
        Intrinsic exit\n\
        Function f 1\n\
        Arglocal_read 0\n\
        Iconst 1\n\
        Add\n\
        Arglocal_write 0\n\
        Arglocal_read 0\n\
        Ret";
    assert_eq!(run(source), Ok((String::new(), ints(&[8]))));
}

#[test]
fn arguments_fill_the_leading_locals_in_order() {
    let source = "Iconst 1 Iconst 2 Iconst 3\n\
        Call f 2\n\
        Intrinsic exit\n\
        Function f 4\n\
        Arglocal_read 0 Arglocal_read 1 Arglocal_read 2 Arglocal_read 3\n\
        Ret";
    assert_eq!(run(source), Ok((String::new(), ints(&[1, 2, 3, 0, 0]))));
}

#[test]
fn calls_nest() {
    let source = "Iconst 5 Call twice 1 Intrinsic print_int Intrinsic exit\n\
        Function twice 1\n\
          Arglocal_read 0 Call inc 1 Call inc 1 Ret\n\
        Function inc 1\n\
          Arglocal_read 0 Iconst 1 Add Ret";
    assert_eq!(run(source), Ok(("7".to_string(), ints(&[]))));
}

#[test]
fn running_off_the_end_finishes() {
    assert_eq!(run(""), Ok((String::new(), ints(&[]))));
    assert_eq!(run("Iconst 1 Iconst 2"), Ok((String::new(), ints(&[1, 2]))));
    assert_eq!(run("nop L0: Function f 0"), Ok((String::new(), ints(&[]))));
}

#[test]
fn the_stack_may_hold_text() {
    assert_eq!(
        run("Sconst \"below\" Iconst -3 Sconst \"on \\\"top\\\"\""),
        Ok((
            String::new(),
            ProgramStack(vec![
                ProgramStackItem::String("below".into()),
                ProgramStackItem::Int(-3),
                ProgramStackItem::String("on \"top\"".into()),
            ])
        ))
    );
}

#[test]
fn arithmetic_takes_its_right_operand_from_the_top() {
    assert_eq!(run("Iconst 7 Iconst 2 Sub"), Ok((String::new(), ints(&[5]))));
    assert_eq!(run("Iconst 7 Iconst 2 Div"), Ok((String::new(), ints(&[3]))));
    assert_eq!(run("Iconst -7 Iconst 2 Div"), Ok((String::new(), ints(&[-3]))));
    assert_eq!(run("Iconst 7 Iconst 2 Mod"), Ok((String::new(), ints(&[1]))));
    assert_eq!(run("Iconst -7 Iconst 2 Mod"), Ok((String::new(), ints(&[-1]))));
    assert_eq!(run("Iconst 7 Iconst -2 Mod"), Ok((String::new(), ints(&[1]))));
    assert_eq!(run("Iconst 6 Iconst 7 Mul"), Ok((String::new(), ints(&[42]))));
    assert_eq!(run("Iconst 1 Iconst 2 Lt"), Ok((String::new(), ints(&[1]))));
    assert_eq!(run("Iconst 1 Iconst 2 Gt"), Ok((String::new(), ints(&[0]))));
    assert_eq!(run("Iconst 2 Iconst 2 Eq"), Ok((String::new(), ints(&[1]))));
    assert_eq!(run("Iconst 2 Iconst 3 Eq"), Ok((String::new(), ints(&[0]))));
}

#[test]
fn arithmetic_wraps_at_32_bits() {
    assert_eq!(
        run("Iconst 2147483647 Iconst 1 Add"),
        Ok((String::new(), ints(&[-2147483648])))
    );
    assert_eq!(
        run("Iconst -2147483648 Iconst 1 Sub"),
        Ok((String::new(), ints(&[2147483647])))
    );
    assert_eq!(
        run("Iconst 65536 Iconst 65536 Mul"),
        Ok((String::new(), ints(&[0])))
    );
    assert_eq!(
        run("Iconst 65537 Iconst 65537 Mul"),
        Ok((String::new(), ints(&[131073])))
    );
    assert_eq!(
        run("Iconst -2147483648 Iconst -1 Div"),
        Ok((String::new(), ints(&[-2147483648])))
    );
    assert_eq!(
        run("Iconst -2147483648 Iconst -1 Mod"),
        Ok((String::new(), ints(&[0])))
    );
}

#[test]
fn bits_and_truth() {
    assert_eq!(run("Iconst 12 Iconst 10 Bor"), Ok((String::new(), ints(&[14]))));
    assert_eq!(run("Iconst 12 Iconst 10 Band"), Ok((String::new(), ints(&[8]))));
    assert_eq!(run("Iconst 12 Iconst 10 Xor"), Ok((String::new(), ints(&[6]))));
    assert_eq!(run("Iconst -1 Iconst 10 Band"), Ok((String::new(), ints(&[10]))));
    assert_eq!(run("Iconst 12 Iconst 0 Or"), Ok((String::new(), ints(&[1]))));
    assert_eq!(run("Iconst 0 Iconst 0 Or"), Ok((String::new(), ints(&[0]))));
    assert_eq!(run("Iconst 12 Iconst 0 And"), Ok((String::new(), ints(&[0]))));
    assert_eq!(run("Iconst 12 Iconst -3 And"), Ok((String::new(), ints(&[1]))));
    assert_eq!(run("Iconst 12 Not"), Ok((String::new(), ints(&[0]))));
    assert_eq!(run("Iconst 0 Not"), Ok((String::new(), ints(&[1]))));
}

#[test]
fn globals_are_reserved_read_and_written() {
    assert_eq!(
        run("Reserve n 4 (null) Read n Iconst 5 Write n Read n Read n Add"),
        Ok((String::new(), ints(&[0, 10])))
    );
    assert_eq!(
        run("Reserve s 8 \"hi\" Read s Intrinsic print_string \
             Sconst \"12345678\" Write s Read s Intrinsic print_string"),
        Ok(("hi12345678".to_string(), ints(&[])))
    );
    // A second reservation makes the global anew.
    assert_eq!(
        run("Reserve n 4 (null) Iconst 5 Write n Reserve n 4 (null) Read n"),
        Ok((String::new(), ints(&[0])))
    );
}

#[test]
fn branches_go_where_zero_sends_them() {
    let source = "Iconst 3\n\
        top:\n\
          Reserve i 4 (null)\n\
        Write i\n\
        again: Read i Intrinsic print_int\n\
          Read i Iconst 1 Sub Write i\n\
          Read i Branchzero done\n\
          Jump again\n\
        done: Intrinsic exit";
    assert_eq!(run(source), Ok(("321".to_string(), ints(&[]))));
    assert_eq!(
        run("Iconst 1 Branchzero nowhere Iconst 9"),
        Ok((String::new(), ints(&[9])))
    );
}

#[test]
fn printing_consumes_its_operand() {
    assert_eq!(
        run("Iconst -12 Intrinsic print_int Sconst \" and \" Intrinsic print_string Iconst 0 \
             Intrinsic print_int"),
        Ok(("-12 and 0".to_string(), ints(&[])))
    );
    assert_eq!(
        run("Iconst -2147483648 Intrinsic print_int"),
        Ok(("-2147483648".to_string(), ints(&[])))
    );
}

#[test]
fn exit_stops_at_once() {
    assert_eq!(
        run("Iconst 1 Intrinsic exit Iconst 2 Intrinsic print_int"),
        Ok((String::new(), ints(&[1])))
    );
}

#[test]
fn registers_hold_what_was_popped_into_them() {
    assert_eq!(
        run("Iconst 4 Pop 2 Sconst \"t\" Pop -1 Push 2 Push -1 Push 2 Iconst 5 Pop 2 Push 2"),
        Ok((
            String::new(),
            ProgramStack(vec![
                ProgramStackItem::Int(4),
                ProgramStackItem::String("t".into()),
                ProgramStackItem::Int(4),
                ProgramStackItem::Int(5),
            ])
        ))
    );
}

#[test]
fn stack_underflow_is_fatal() {
    fails("Add", RuntimeErrorKind::StackUnderflow, 0);
    fails("Iconst 1 Add", RuntimeErrorKind::StackUnderflow, 1);
    fails("Not", RuntimeErrorKind::StackUnderflow, 0);
    fails("Intrinsic print_int", RuntimeErrorKind::StackUnderflow, 0);
    fails("Intrinsic print_string", RuntimeErrorKind::StackUnderflow, 0);
    fails("Reserve n 4 (null) Write n", RuntimeErrorKind::StackUnderflow, 1);
    fails("Branchzero x", RuntimeErrorKind::StackUnderflow, 0);
    fails("Pop 1", RuntimeErrorKind::StackUnderflow, 0);
    fails("Ret", RuntimeErrorKind::StackUnderflow, 0);
    fails("Iconst 1 Call f 2 Function f 2", RuntimeErrorKind::StackUnderflow, 1);
    fails("Function f 1 Arglocal_write 0", RuntimeErrorKind::StackUnderflow, 1);
}

#[test]
fn unresolved_and_ambiguous_labels_are_fatal() {
    fails("Jump nowhere", RuntimeErrorKind::UnresolvedLabel, 0);
    fails("Iconst 0 Branchzero nowhere", RuntimeErrorKind::UnresolvedLabel, 1);
    fails("Call f 0", RuntimeErrorKind::UnresolvedLabel, 0);
    // A function is no label, and a label no function.
    fails("Jump f Function f 0", RuntimeErrorKind::UnresolvedLabel, 0);
    fails("Call f 0 f:", RuntimeErrorKind::UnresolvedLabel, 0);
    fails("Jump twice twice: twice:", RuntimeErrorKind::AmbiguousLabel, 0);
    fails("Iconst 0 Branchzero t t: nop t:", RuntimeErrorKind::AmbiguousLabel, 1);
    fails("Call f 0 Function f 0 Function f 1", RuntimeErrorKind::AmbiguousLabel, 0);
    // Declared twice and never referred to, a label does no harm.
    assert_eq!(run("t: t: Iconst 1"), Ok((String::new(), ints(&[1]))));
}

#[test]
fn access_out_of_range_is_fatal() {
    fails("Read n", RuntimeErrorKind::OutOfRange, 0);
    fails("Iconst 1 Write n", RuntimeErrorKind::OutOfRange, 1);
    fails("Arglocal_read 0", RuntimeErrorKind::OutOfRange, 0);
    fails("Iconst 1 Arglocal_write 0", RuntimeErrorKind::OutOfRange, 1);
    fails("Call f 0 Function f 2 Arglocal_read 2", RuntimeErrorKind::OutOfRange, 2);
    fails("Iconst 1 Call f 1 Function f 0", RuntimeErrorKind::OutOfRange, 1);
    fails("Push 3", RuntimeErrorKind::OutOfRange, 0);
    fails("Reserve s 2 \"abc\"", RuntimeErrorKind::OutOfRange, 0);
    fails("Reserve s 2 \"ab\" Sconst \"abc\" Write s", RuntimeErrorKind::OutOfRange, 2);
    // Two characters, four bytes.
    fails("Reserve s 3 \"\u{e9}\u{e9}\"", RuntimeErrorKind::OutOfRange, 0);
    fails("Iconst 2147483648", RuntimeErrorKind::OutOfRange, 0);
    fails("Iconst -2147483649", RuntimeErrorKind::OutOfRange, 0);
    fails("Call f 0 Function f 2147483648", RuntimeErrorKind::OutOfRange, 0);
}

#[test]
fn an_operand_of_the_wrong_kind_is_fatal() {
    fails("Iconst 1 Sconst \"2\" Add", RuntimeErrorKind::WrongKind, 2);
    fails("Sconst \"1\" Iconst 2 Lt", RuntimeErrorKind::WrongKind, 2);
    fails("Sconst \"1\" Not", RuntimeErrorKind::WrongKind, 1);
    fails("Sconst \"1\" Intrinsic print_int", RuntimeErrorKind::WrongKind, 1);
    fails("Iconst 1 Intrinsic print_string", RuntimeErrorKind::WrongKind, 1);
    fails("Sconst \"0\" Branchzero x x:", RuntimeErrorKind::WrongKind, 1);
    fails("Reserve n 4 (null) Sconst \"t\" Write n", RuntimeErrorKind::WrongKind, 2);
    fails("Reserve s 4 \"t\" Iconst 1 Write s", RuntimeErrorKind::WrongKind, 2);
}

#[test]
fn division_by_zero_is_fatal() {
    fails("Iconst 1 Iconst 0 Div", RuntimeErrorKind::DivisionByZero, 2);
    fails("Iconst 1 Iconst 0 Mod", RuntimeErrorKind::DivisionByZero, 2);
}

#[test]
fn a_failed_machine_keeps_its_state() {
    let failing = program("Iconst 1 Sconst \"out\" Intrinsic print_string Add Iconst 2").unwrap();
    let mut machine = Machine::new();
    machine.run(&failing, 100);
    assert_eq!(machine.status, Status::Failed(RuntimeErrorKind::StackUnderflow));
    assert_eq!(machine.pc, 3);
    assert_eq!(machine.output, "out");
    assert_eq!(machine.stack, vec![Value::Int(1)]);
    machine.step(&failing);
    machine.run(&failing, 100);
    assert_eq!(machine.status, Status::Failed(RuntimeErrorKind::StackUnderflow));
    assert_eq!(machine.pc, 3);
    assert_eq!(machine.stack, vec![Value::Int(1)]);
}

#[test]
fn a_program_need_not_come_from_text() {
    let built = vec![
        Instruction::Sconst("two\nlines".into()),
        Instruction::Intrinsic(Intrinsic::PrintString),
        Instruction::Jump(Label::named("two words")),
        Instruction::Iconst(1),
        Instruction::Label(Label::named("two words")),
    ];
    assert_eq!(interpret(&built, 100), Ok(("two\nlines".to_string(), ints(&[]))));
}

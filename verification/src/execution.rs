//! The stack machine, as mathematics: its state, and what one instruction
//! makes of a state.
//!
//! Integers are signed 32-bit values and arithmetic wraps around. A binary
//! operation takes its right operand from the top of the stack and its left
//! operand from below it. Comparisons and logical operations give 1 or 0.

use crate::ir_definition::{Intrinsic, Op};
use crate::unparse::signed_decimal;
use vstd::prelude::*;
use vstd::utf8::encode_utf8;

verus! {

/// A value on the operand stack, in a global, a local or a register.
#[verifier::ext_equal]
pub enum ValueView {
    Int(i32),
    Text(Seq<char>),
}

/// A global: its name, what it holds, and for a text how many bytes of UTF-8
/// it has room for.
#[verifier::ext_equal]
pub struct GlobalView {
    pub name: Seq<char>,
    pub value: ValueView,
    pub capacity: u64,
}

/// The frame of a call: its locals, and the instruction to return to.
#[verifier::ext_equal]
pub struct FrameView {
    pub locals: Seq<ValueView>,
    pub return_to: int,
}

/// A register that has been written: its number and what it holds.
#[verifier::ext_equal]
pub struct RegisterView {
    pub number: i64,
    pub value: ValueView,
}

/// Why a run fails.
#[derive(Debug, PartialEq, Eq, Clone, Copy, Structural)]
pub enum RuntimeErrorKind {
    /// An instruction needs more operands than the stack holds, or a return
    /// finds no call to return from.
    StackUnderflow,
    /// A jump or branch names a label that no instruction declares, or a call
    /// a function that no instruction marks.
    UnresolvedLabel,
    /// A jump, branch or call names a label that is declared more than once.
    AmbiguousLabel,
    /// A global or register that was never written, a local beyond the frame
    /// or outside any call, more arguments than the callee has locals, a text
    /// longer than its global has room for, or a constant or a count beyond
    /// 32 bits.
    OutOfRange,
    /// An operand is a text where an integer is needed, or an integer where a
    /// text is.
    WrongKind,
    /// The right operand of a division or a remainder is zero.
    DivisionByZero,
}

/// Where a run stands.
#[derive(Debug, PartialEq, Eq, Clone, Copy, Structural)]
pub enum Status {
    /// The instruction at the instruction pointer is the next to run.
    Running,
    /// The instruction pointer ran past the last instruction.
    Finished,
    /// An exit intrinsic ended the run.
    Exited,
    /// The instruction at the instruction pointer failed.
    Failed(RuntimeErrorKind),
}

/// The state of the machine.
#[verifier::ext_equal]
pub struct State {
    /// The index of the next instruction.
    pub pc: int,
    /// The operand stack, bottom first.
    pub stack: Seq<ValueView>,
    pub globals: Seq<GlobalView>,
    /// The call stack, outermost call first.
    pub frames: Seq<FrameView>,
    pub registers: Seq<RegisterView>,
    /// What the program has printed.
    pub output: Seq<char>,
    pub status: Status,
}

/// The state before the first instruction.
pub open spec fn initial() -> State {
    State {
        pc: 0,
        stack: Seq::empty(),
        globals: Seq::empty(),
        frames: Seq::empty(),
        registers: Seq::empty(),
        output: Seq::empty(),
        status: Status::Running,
    }
}

/// The instruction pointer moves on to the next instruction.
pub open spec fn advance(s: State) -> State {
    State { pc: s.pc + 1, ..s }
}

/// The run fails at the instruction pointer.
pub open spec fn fail(s: State, kind: RuntimeErrorKind) -> State {
    State { status: Status::Failed(kind), ..s }
}

/// A value is pushed, and the instruction pointer moves on.
pub open spec fn push(s: State, value: ValueView) -> State {
    advance(State { stack: s.stack.push(value), ..s })
}

/// A truth value as an integer: 1 for true, 0 for false.
pub open spec fn truth(b: bool) -> i32 {
    if b {
        1
    } else {
        0
    }
}

/// The quotient, rounded towards zero. Dividing the least integer by -1
/// wraps around to the least integer.
pub open spec fn quotient(a: i32, b: i32) -> i32 {
    match a.checked_div(b) {
        Some(q) => q,
        None => i32::MIN,
    }
}

/// The remainder, with the sign of the left operand.
pub open spec fn remainder(a: i32, b: i32) -> i32 {
    match a.checked_rem(b) {
        Some(r) => r,
        None => 0,
    }
}

/// What a binary operation makes of its operands, `a` from below the top of
/// the stack and `b` from the top.
pub open spec fn binary_result(op: Op, a: i32, b: i32) -> Result<i32, RuntimeErrorKind> {
    match op {
        Op::Add => Ok(a.wrapping_add(b)),
        Op::Sub => Ok(a.wrapping_sub(b)),
        Op::Mul => Ok(a.wrapping_mul(b)),
        Op::Div => if b == 0 {
            Err(RuntimeErrorKind::DivisionByZero)
        } else {
            Ok(quotient(a, b))
        },
        Op::Mod => if b == 0 {
            Err(RuntimeErrorKind::DivisionByZero)
        } else {
            Ok(remainder(a, b))
        },
        Op::Bor => Ok(a | b),
        Op::Band => Ok(a & b),
        Op::Xor => Ok(a ^ b),
        Op::Or => Ok(truth(a != 0 || b != 0)),
        Op::And => Ok(truth(a != 0 && b != 0)),
        Op::Eq => Ok(truth(a == b)),
        Op::Lt => Ok(truth(a < b)),
        _ => Ok(truth(a > b)),
    }
}

/// The operations that take two integers and give one.
pub open spec fn is_binary(op: Op) -> bool {
    op is Add || op is Sub || op is Mul || op is Div || op is Mod || op is Bor || op is Band
        || op is Xor || op is Or || op is And || op is Eq || op is Lt || op is Gt
}

/// A binary operation: two integers leave the stack and the result enters it.
pub open spec fn binary(s: State, op: Op) -> State {
    let n = s.stack.len() as int;
    if n < 2 {
        fail(s, RuntimeErrorKind::StackUnderflow)
    } else {
        match (s.stack[n - 2], s.stack[n - 1]) {
            (ValueView::Int(a), ValueView::Int(b)) => match binary_result(op, a, b) {
                Ok(result) => push(
                    State { stack: s.stack.subrange(0, n - 2), ..s },
                    ValueView::Int(result),
                ),
                Err(kind) => fail(s, kind),
            },
            _ => fail(s, RuntimeErrorKind::WrongKind),
        }
    }
}

/// The index of the first global of that name.
pub open spec fn global_index(globals: Seq<GlobalView>, name: Seq<char>, from: int) -> Option<int>
    decreases globals.len() - from,
{
    if from < 0 || from >= globals.len() {
        None
    } else if globals[from].name == name {
        Some(from)
    } else {
        global_index(globals, name, from + 1)
    }
}

/// The index of the first register of that number.
pub open spec fn register_index(registers: Seq<RegisterView>, number: i64, from: int) -> Option<
    int,
>
    decreases registers.len() - from,
{
    if from < 0 || from >= registers.len() {
        None
    } else if registers[from].number == number {
        Some(from)
    } else {
        register_index(registers, number, from + 1)
    }
}

/// A reservation: the global is made, or made anew if it was there.
pub open spec fn reserve(s: State, global: GlobalView) -> State {
    match global_index(s.globals, global.name, 0) {
        Some(i) => advance(State { globals: s.globals.update(i, global), ..s }),
        None => advance(State { globals: s.globals.push(global), ..s }),
    }
}

/// Whether a value may be written to a global: an integer to an integer, a
/// text to a text that has room for it.
pub open spec fn fits_global(global: GlobalView, value: ValueView) -> Result<
    (),
    RuntimeErrorKind,
> {
    match (global.value, value) {
        (ValueView::Int(_), ValueView::Int(_)) => Ok(()),
        (ValueView::Text(_), ValueView::Text(text)) => if encode_utf8(text).len()
            <= global.capacity {
            Ok(())
        } else {
            Err(RuntimeErrorKind::OutOfRange)
        },
        _ => Err(RuntimeErrorKind::WrongKind),
    }
}

/// How often a label is declared from instruction `from` on.
pub open spec fn label_count(ops: Seq<Op>, label: Seq<char>, from: int) -> nat
    decreases ops.len() - from,
{
    if from < 0 || from >= ops.len() {
        0
    } else if ops[from] == Op::Label(label) {
        1 + label_count(ops, label, from + 1)
    } else {
        label_count(ops, label, from + 1)
    }
}

/// Where a label is declared first from instruction `from` on.
pub open spec fn first_label(ops: Seq<Op>, label: Seq<char>, from: int) -> int
    decreases ops.len() - from,
{
    if from < 0 || from >= ops.len() || ops[from] == Op::Label(label) {
        from
    } else {
        first_label(ops, label, from + 1)
    }
}

/// Whether instruction `at` marks the function of that name.
pub open spec fn marks_function(ops: Seq<Op>, label: Seq<char>, at: int) -> bool {
    ops[at] matches Op::Function { label: marked, .. } && marked == label
}

/// How often a function of that name is marked from instruction `from` on.
pub open spec fn function_count(ops: Seq<Op>, label: Seq<char>, from: int) -> nat
    decreases ops.len() - from,
{
    if from < 0 || from >= ops.len() {
        0
    } else if marks_function(ops, label, from) {
        1 + function_count(ops, label, from + 1)
    } else {
        function_count(ops, label, from + 1)
    }
}

/// Where a function of that name is marked first from instruction `from` on.
pub open spec fn first_function(ops: Seq<Op>, label: Seq<char>, from: int) -> int
    decreases ops.len() - from,
{
    if from < 0 || from >= ops.len() || marks_function(ops, label, from) {
        from
    } else {
        first_function(ops, label, from + 1)
    }
}

/// A jump: control goes to the one instruction that declares the label.
pub open spec fn jump(ops: Seq<Op>, s: State, label: Seq<char>) -> State {
    let count = label_count(ops, label, 0);
    if count == 0 {
        fail(s, RuntimeErrorKind::UnresolvedLabel)
    } else if count > 1 {
        fail(s, RuntimeErrorKind::AmbiguousLabel)
    } else {
        State { pc: first_label(ops, label, 0), ..s }
    }
}

/// A branch: an integer leaves the stack, and control goes to the label if
/// the integer is zero.
pub open spec fn branch_zero(ops: Seq<Op>, s: State, label: Seq<char>) -> State {
    let n = s.stack.len() as int;
    if n < 1 {
        fail(s, RuntimeErrorKind::StackUnderflow)
    } else {
        match s.stack[n - 1] {
            ValueView::Int(value) => {
                let popped = State { stack: s.stack.subrange(0, n - 1), ..s };
                let count = label_count(ops, label, 0);
                if value != 0 {
                    advance(popped)
                } else if count == 0 {
                    fail(s, RuntimeErrorKind::UnresolvedLabel)
                } else if count > 1 {
                    fail(s, RuntimeErrorKind::AmbiguousLabel)
                } else {
                    State { pc: first_label(ops, label, 0), ..popped }
                }
            },
            _ => fail(s, RuntimeErrorKind::WrongKind),
        }
    }
}

/// The locals of a new frame: the arguments in the order in which they were
/// pushed, then zeros.
pub open spec fn new_locals(arguments: Seq<ValueView>, count: int) -> Seq<ValueView> {
    Seq::new(
        count as nat,
        |i: int|
            if i < arguments.len() {
                arguments[i]
            } else {
                ValueView::Int(0)
            },
    )
}

/// A call: the arguments leave the stack for the leading locals of a new
/// frame, and control goes to just behind the function's marker.
pub open spec fn call(ops: Seq<Op>, s: State, label: Seq<char>, num_args: u64) -> State {
    let count = function_count(ops, label, 0);
    let target = first_function(ops, label, 0);
    let n = s.stack.len() as int;
    if count == 0 {
        fail(s, RuntimeErrorKind::UnresolvedLabel)
    } else if count > 1 {
        fail(s, RuntimeErrorKind::AmbiguousLabel)
    } else {
        match ops[target] {
            Op::Function { num_locs, .. } => {
                if num_args > num_locs || num_locs > i32::MAX {
                    fail(s, RuntimeErrorKind::OutOfRange)
                } else if n < num_args {
                    fail(s, RuntimeErrorKind::StackUnderflow)
                } else {
                    State {
                        pc: target + 1,
                        stack: s.stack.subrange(0, n - num_args),
                        frames: s.frames.push(
                            FrameView {
                                locals: new_locals(s.stack.subrange(n - num_args, n), num_locs as int),
                                return_to: s.pc + 1,
                            },
                        ),
                        ..s
                    }
                }
            },
            _ => fail(s, RuntimeErrorKind::UnresolvedLabel),
        }
    }
}

/// What one instruction makes of a state in which the machine runs and the
/// instruction pointer is within the program.
pub open spec fn execute(ops: Seq<Op>, s: State) -> State {
    let n = s.stack.len() as int;
    let depth = s.frames.len() as int;
    match ops[s.pc] {
        Op::Nop => advance(s),
        Op::Label(_) => advance(s),
        Op::Function { .. } => advance(s),
        Op::Iconst(value) => if i32::MIN <= value <= i32::MAX {
            push(s, ValueView::Int(value as i32))
        } else {
            fail(s, RuntimeErrorKind::OutOfRange)
        },
        Op::Sconst(text) => push(s, ValueView::Text(text)),
        Op::Not => if n < 1 {
            fail(s, RuntimeErrorKind::StackUnderflow)
        } else {
            match s.stack[n - 1] {
                ValueView::Int(a) => push(
                    State { stack: s.stack.subrange(0, n - 1), ..s },
                    ValueView::Int(truth(a == 0)),
                ),
                _ => fail(s, RuntimeErrorKind::WrongKind),
            }
        },
        Op::ReserveInt { name } => reserve(
            s,
            GlobalView { name, value: ValueView::Int(0), capacity: 4 },
        ),
        Op::ReserveString { size, name, initial_value } => if encode_utf8(initial_value).len()
            <= size {
            reserve(s, GlobalView { name, value: ValueView::Text(initial_value), capacity: size })
        } else {
            fail(s, RuntimeErrorKind::OutOfRange)
        },
        Op::Read(name) => match global_index(s.globals, name, 0) {
            Some(i) => push(s, s.globals[i].value),
            None => fail(s, RuntimeErrorKind::OutOfRange),
        },
        Op::Write(name) => if n < 1 {
            fail(s, RuntimeErrorKind::StackUnderflow)
        } else {
            match global_index(s.globals, name, 0) {
                None => fail(s, RuntimeErrorKind::OutOfRange),
                Some(i) => match fits_global(s.globals[i], s.stack[n - 1]) {
                    Err(kind) => fail(s, kind),
                    Ok(()) => advance(
                        State {
                            stack: s.stack.subrange(0, n - 1),
                            globals: s.globals.update(
                                i,
                                GlobalView { value: s.stack[n - 1], ..s.globals[i] },
                            ),
                            ..s
                        },
                    ),
                },
            }
        },
        Op::ArgLocalRead(index) => if depth < 1 || index >= s.frames[depth - 1].locals.len() {
            fail(s, RuntimeErrorKind::OutOfRange)
        } else {
            push(s, s.frames[depth - 1].locals[index as int])
        },
        Op::ArgLocalWrite(index) => if n < 1 {
            fail(s, RuntimeErrorKind::StackUnderflow)
        } else if depth < 1 || index >= s.frames[depth - 1].locals.len() {
            fail(s, RuntimeErrorKind::OutOfRange)
        } else {
            advance(
                State {
                    stack: s.stack.subrange(0, n - 1),
                    frames: s.frames.update(
                        depth - 1,
                        FrameView {
                            locals: s.frames[depth - 1].locals.update(index as int, s.stack[n - 1]),
                            ..s.frames[depth - 1]
                        },
                    ),
                    ..s
                },
            )
        },
        Op::Jump(label) => jump(ops, s, label),
        Op::BranchZero(label) => branch_zero(ops, s, label),
        Op::Call { label, num_args } => call(ops, s, label, num_args),
        Op::Ret => if depth < 1 {
            fail(s, RuntimeErrorKind::StackUnderflow)
        } else {
            State {
                pc: s.frames[depth - 1].return_to,
                frames: s.frames.subrange(0, depth - 1),
                ..s
            }
        },
        Op::Intrinsic(Intrinsic::Exit) => State { status: Status::Exited, ..s },
        Op::Intrinsic(Intrinsic::PrintInt) => if n < 1 {
            fail(s, RuntimeErrorKind::StackUnderflow)
        } else {
            match s.stack[n - 1] {
                ValueView::Int(value) => advance(
                    State {
                        stack: s.stack.subrange(0, n - 1),
                        output: s.output + signed_decimal(value as int),
                        ..s
                    },
                ),
                _ => fail(s, RuntimeErrorKind::WrongKind),
            }
        },
        Op::Intrinsic(Intrinsic::PrintString) => if n < 1 {
            fail(s, RuntimeErrorKind::StackUnderflow)
        } else {
            match s.stack[n - 1] {
                ValueView::Text(text) => advance(
                    State { stack: s.stack.subrange(0, n - 1), output: s.output + text, ..s },
                ),
                _ => fail(s, RuntimeErrorKind::WrongKind),
            }
        },
        Op::Push { reg } => match register_index(s.registers, reg, 0) {
            Some(i) => push(s, s.registers[i].value),
            None => fail(s, RuntimeErrorKind::OutOfRange),
        },
        Op::Pop { reg } => if n < 1 {
            fail(s, RuntimeErrorKind::StackUnderflow)
        } else {
            let register = RegisterView { number: reg, value: s.stack[n - 1] };
            let popped = s.stack.subrange(0, n - 1);
            match register_index(s.registers, reg, 0) {
                Some(i) => advance(
                    State { stack: popped, registers: s.registers.update(i, register), ..s },
                ),
                None => advance(State { stack: popped, registers: s.registers.push(register), ..s }),
            }
        },
        op => binary(s, op),
    }
}

/// One step of the machine. A machine that has stopped stays as it is; one
/// whose instruction pointer is past the last instruction has finished; any
/// other executes the instruction at the instruction pointer.
pub open spec fn step_of(ops: Seq<Op>, s: State) -> State {
    if s.status != Status::Running {
        s
    } else if s.pc < 0 || s.pc >= ops.len() {
        State { status: Status::Finished, ..s }
    } else {
        execute(ops, s)
    }
}

/// At most `fuel` steps of the machine, fewer if it stops before.
pub open spec fn run_of(ops: Seq<Op>, s: State, fuel: nat) -> State
    decreases fuel,
{
    if fuel == 0 || s.status != Status::Running {
        s
    } else {
        run_of(ops, step_of(ops, s), (fuel - 1) as nat)
    }
}

/// A machine that has stopped stays as it is, however many steps it is
/// given.
pub proof fn lemma_stopped_stays(ops: Seq<Op>, s: State, fuel: nat)
    requires
        s.status != Status::Running,
    ensures
        step_of(ops, s) == s,
        run_of(ops, s, fuel) == s,
{
}

/// Steps add up: running for some steps and then for some more is running
/// for the sum of both.
pub proof fn lemma_steps_add_up(ops: Seq<Op>, s: State, first: nat, second: nat)
    ensures
        run_of(ops, run_of(ops, s, first), second) == run_of(ops, s, first + second),
    decreases first,
{
    if s.status != Status::Running {
        lemma_stopped_stays(ops, s, first);
        lemma_stopped_stays(ops, s, second);
        lemma_stopped_stays(ops, s, first + second);
    } else if first > 0 {
        lemma_steps_add_up(ops, step_of(ops, s), (first - 1) as nat, second);
    }
}

/// More steps change nothing once the machine has stopped: what a run comes
/// to within some steps, it comes to within any more.
pub proof fn lemma_more_steps_change_nothing(ops: Seq<Op>, s: State, fuel: nat, more: nat)
    requires
        run_of(ops, s, fuel).status != Status::Running,
    ensures
        run_of(ops, s, fuel + more) == run_of(ops, s, fuel),
{
    lemma_steps_add_up(ops, s, fuel, more);
    lemma_stopped_stays(ops, run_of(ops, s, fuel), more);
}

} // verus!

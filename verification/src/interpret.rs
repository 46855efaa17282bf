//! The stack machine: running a program, and what comes of it.

use crate::execution::{
    advance, binary, binary_result, branch_zero, call, execute, fail, first_function, first_label,
    fits_global, function_count, global_index, initial, is_binary, jump, label_count,
    marks_function, new_locals, push, register_index, reserve, run_of, step_of, truth, FrameView,
    GlobalView, RegisterView, RuntimeErrorKind, State, Status, ValueView,
};
use crate::ir_definition::{program_view, Instruction, Intrinsic, Label, Op};
use crate::read_bytecode::utf8_text;
use crate::unparse::push_signed_decimal;
use vstd::prelude::*;
use vstd::string::StringExecFns;
use vstd::utf8::{decode_utf8, encode_utf8_decode_utf8, valid_utf8};

verus! {

/// A value of the machine: an integer or a text.
#[derive(Debug, PartialEq)]
pub enum Value {
    Int(i32),
    Text(String),
}

impl View for Value {
    type V = ValueView;

    open spec fn view(&self) -> ValueView {
        match *self {
            Value::Int(value) => ValueView::Int(value),
            Value::Text(text) => ValueView::Text(text@),
        }
    }
}

impl Value {
    /// A copy of the value.
    pub fn copy(&self) -> (copy: Value)
        ensures
            copy@ == self@,
    {
        match self {
            Value::Int(value) => Value::Int(*value),
            Value::Text(text) => Value::Text(text.clone()),
        }
    }
}

/// A global of the machine.
pub struct Global {
    pub name: String,
    pub value: Value,
    pub capacity: u64,
}

impl View for Global {
    type V = GlobalView;

    open spec fn view(&self) -> GlobalView {
        GlobalView { name: self.name@, value: self.value@, capacity: self.capacity }
    }
}

/// The frame of a call.
pub struct Frame {
    pub locals: Vec<Value>,
    pub return_to: usize,
}

/// The values of a sequence, one by one.
pub open spec fn values_view(values: Seq<Value>) -> Seq<ValueView> {
    Seq::new(values.len(), |i: int| values[i]@)
}

impl View for Frame {
    type V = FrameView;

    open spec fn view(&self) -> FrameView {
        FrameView { locals: values_view(self.locals@), return_to: self.return_to as int }
    }
}

/// A register of the machine that has been written.
pub struct Register {
    pub number: i64,
    pub value: Value,
}

impl View for Register {
    type V = RegisterView;

    open spec fn view(&self) -> RegisterView {
        RegisterView { number: self.number, value: self.value@ }
    }
}

/// The values of the globals, one by one.
pub open spec fn globals_view(globals: Seq<Global>) -> Seq<GlobalView> {
    Seq::new(globals.len(), |i: int| globals[i]@)
}

/// The values of the frames, one by one.
pub open spec fn frames_view(frames: Seq<Frame>) -> Seq<FrameView> {
    Seq::new(frames.len(), |i: int| frames[i]@)
}

/// The values of the registers, one by one.
pub open spec fn registers_view(registers: Seq<Register>) -> Seq<RegisterView> {
    Seq::new(registers.len(), |i: int| registers[i]@)
}

/// The stack machine.
pub struct Machine {
    pub pc: usize,
    pub stack: Vec<Value>,
    pub globals: Vec<Global>,
    pub frames: Vec<Frame>,
    pub registers: Vec<Register>,
    pub output: String,
    pub status: Status,
}

impl View for Machine {
    type V = State;

    open spec fn view(&self) -> State {
        State {
            pc: self.pc as int,
            stack: values_view(self.stack@),
            globals: globals_view(self.globals@),
            frames: frames_view(self.frames@),
            registers: registers_view(self.registers@),
            output: self.output@,
            status: self.status,
        }
    }
}

/// The index of the first global of that name, from `from` on.
fn find_global(globals: &Vec<Global>, name: &String) -> (found: Option<usize>)
    ensures
        match global_index(globals_view(globals@), name@, 0) {
            Some(i) => found matches Some(index) && index == i && index < globals@.len(),
            None => found is None,
        },
{
    let mut at: usize = 0;
    while at < globals.len()
        invariant
            at <= globals@.len(),
            global_index(globals_view(globals@), name@, 0) == global_index(
                globals_view(globals@),
                name@,
                at as int,
            ),
        decreases globals@.len() - at,
    {
        if globals[at].name == *name {
            return Some(at);
        }
        at += 1;
    }
    None
}

/// The index of the first register of that number.
fn find_register(registers: &Vec<Register>, number: i64) -> (found: Option<usize>)
    ensures
        match register_index(registers_view(registers@), number, 0) {
            Some(i) => found matches Some(index) && index == i && index < registers@.len(),
            None => found is None,
        },
{
    let mut at: usize = 0;
    while at < registers.len()
        invariant
            at <= registers@.len(),
            register_index(registers_view(registers@), number, 0) == register_index(
                registers_view(registers@),
                number,
                at as int,
            ),
        decreases registers@.len() - at,
    {
        if registers[at].number == number {
            return Some(at);
        }
        at += 1;
    }
    None
}

/// Where a name is declared: how often, at most counted to two, and where
/// first.
struct Resolution {
    count: u8,
    first: usize,
}

/// Looks a label up among the labels that a program declares.
fn resolve_label(program: &[Instruction], label: &Label) -> (found: Resolution)
    ensures
        found.count == 0 <==> label_count(program_view(program@), label@, 0) == 0,
        found.count == 1 <==> label_count(program_view(program@), label@, 0) == 1,
        found.count <= 2,
        found.count >= 1 ==> found.first == first_label(program_view(program@), label@, 0)
            && found.first < program@.len(),
{
    let ghost ops = program_view(program@);
    let mut count: u8 = 0;
    let mut first: usize = 0;
    let mut at: usize = 0;
    while at < program.len()
        invariant
            at <= program@.len(),
            ops == program_view(program@),
            count <= 2,
            label_count(ops, label@, 0) == 0 <==> count == 0 && label_count(ops, label@, at as int)
                == 0,
            label_count(ops, label@, 0) == 1 <==> count + label_count(ops, label@, at as int) == 1,
            count == 0 ==> first_label(ops, label@, 0) == first_label(ops, label@, at as int),
            count >= 1 ==> first == first_label(ops, label@, 0) && first < program@.len(),
        decreases program@.len() - at,
    {
        assert(ops[at as int] == program@[at as int]@);
        let declared = match &program[at] {
            Instruction::Label(declared) => declared.same_as(label),
            _ => false,
        };
        assert(declared == (ops[at as int] == Op::Label(label@)));
        if declared {
            if count == 0 {
                first = at;
            }
            if count < 2 {
                count += 1;
            }
        }
        at += 1;
    }
    Resolution { count, first }
}

/// Looks a function up among the functions that a program marks.
fn resolve_function(program: &[Instruction], label: &Label) -> (found: Resolution)
    ensures
        found.count == 0 <==> function_count(program_view(program@), label@, 0) == 0,
        found.count == 1 <==> function_count(program_view(program@), label@, 0) == 1,
        found.count <= 2,
        found.count >= 1 ==> found.first == first_function(program_view(program@), label@, 0)
            && found.first < program@.len() && marks_function(
            program_view(program@),
            label@,
            found.first as int,
        ),
{
    let ghost ops = program_view(program@);
    let mut count: u8 = 0;
    let mut first: usize = 0;
    let mut at: usize = 0;
    while at < program.len()
        invariant
            at <= program@.len(),
            ops == program_view(program@),
            count <= 2,
            function_count(ops, label@, 0) == 0 <==> count == 0 && function_count(
                ops,
                label@,
                at as int,
            ) == 0,
            function_count(ops, label@, 0) == 1 <==> count + function_count(ops, label@, at as int)
                == 1,
            count == 0 ==> first_function(ops, label@, 0) == first_function(ops, label@, at as int),
            count >= 1 ==> first == first_function(ops, label@, 0) && first < program@.len()
                && marks_function(ops, label@, first as int),
        decreases program@.len() - at,
    {
        assert(ops[at as int] == program@[at as int]@);
        let marked = match &program[at] {
            Instruction::Function { label: marked, .. } => marked.same_as(label),
            _ => false,
        };
        assert(marked == marks_function(ops, label@, at as int));
        if marked {
            if count == 0 {
                first = at;
            }
            if count < 2 {
                count += 1;
            }
        }
        at += 1;
    }
    Resolution { count, first }
}

/// What a binary operation makes of its operands.
fn binary_value(instruction: &Instruction, a: i32, b: i32) -> (result: Result<
    i32,
    RuntimeErrorKind,
>)
    requires
        is_binary(instruction@),
    ensures
        result == binary_result(instruction@, a, b),
{
    match instruction {
        Instruction::Add => Ok(a.wrapping_add(b)),
        Instruction::Sub => Ok(a.wrapping_sub(b)),
        Instruction::Mul => Ok(a.wrapping_mul(b)),
        Instruction::Div => {
            if b == 0 {
                Err(RuntimeErrorKind::DivisionByZero)
            } else {
                match a.checked_div(b) {
                    Some(q) => Ok(q),
                    None => Ok(i32::MIN),
                }
            }
        },
        Instruction::Mod => {
            if b == 0 {
                Err(RuntimeErrorKind::DivisionByZero)
            } else {
                match a.checked_rem(b) {
                    Some(r) => Ok(r),
                    None => Ok(0),
                }
            }
        },
        Instruction::Bor => Ok(a | b),
        Instruction::Band => Ok(a & b),
        Instruction::Xor => Ok(a ^ b),
        Instruction::Or => Ok(if a != 0 || b != 0 {
            1
        } else {
            0
        }),
        Instruction::And => Ok(if a != 0 && b != 0 {
            1
        } else {
            0
        }),
        Instruction::Eq => Ok(if a == b {
            1
        } else {
            0
        }),
        Instruction::Lt => Ok(if a < b {
            1
        } else {
            0
        }),
        _ => Ok(if a > b {
            1
        } else {
            0
        }),
    }
}

proof fn lemma_values_push(values: Seq<Value>, value: Value)
    ensures
        values_view(values.push(value)) == values_view(values).push(value@),
{
    assert(values_view(values.push(value)) =~= values_view(values).push(value@));
}

proof fn lemma_values_subrange(values: Seq<Value>, from: int, to: int)
    requires
        0 <= from <= to <= values.len(),
    ensures
        values_view(values.subrange(from, to)) == values_view(values).subrange(from, to),
{
    assert(values_view(values.subrange(from, to)) =~= values_view(values).subrange(from, to));
}

impl Machine {
    /// A machine before the first instruction.
    pub fn new() -> (machine: Machine)
        ensures
            machine@ == initial(),
    {
        let machine = Machine {
            pc: 0,
            stack: Vec::new(),
            globals: Vec::new(),
            frames: Vec::new(),
            registers: Vec::new(),
            output: String::new(),
            status: Status::Running,
        };
        assert(machine@ =~= initial());
        machine
    }

    fn fail(&mut self, kind: RuntimeErrorKind)
        ensures
            final(self)@ == fail(old(self)@, kind),
    {
        self.status = Status::Failed(kind);
    }

    fn advance(&mut self)
        requires
            old(self).pc < usize::MAX,
        ensures
            final(self)@ == advance(old(self)@),
    {
        self.pc = self.pc + 1;
    }

    fn push(&mut self, value: Value)
        requires
            old(self).pc < usize::MAX,
        ensures
            final(self)@ == push(old(self)@, value@),
    {
        proof {
            lemma_values_push(self.stack@, value);
        }
        self.stack.push(value);
        self.pc = self.pc + 1;
    }

    /// Takes the top of the stack.
    fn pop(&mut self) -> (value: Value)
        requires
            old(self).stack@.len() > 0,
        ensures
            value@ == old(self)@.stack[old(self)@.stack.len() - 1],
            final(self).stack@.len() == old(self).stack@.len() - 1,
            final(self).pc == old(self).pc,
            final(self).globals == old(self).globals,
            final(self).frames == old(self).frames,
            final(self).registers == old(self).registers,
            final(self)@ == (State {
                stack: old(self)@.stack.subrange(0, old(self)@.stack.len() - 1),
                ..old(self)@
            }),
    {
        proof {
            lemma_values_subrange(self.stack@, 0, self.stack@.len() - 1);
        }
        match self.stack.pop() {
            Some(value) => value,
            None => Value::Int(0),
        }
    }

    /// The integer on top of the stack, if an integer is there.
    fn top_int(&self) -> (top: Result<i32, RuntimeErrorKind>)
        ensures
            top == if self@.stack.len() < 1 {
                Err::<i32, RuntimeErrorKind>(RuntimeErrorKind::StackUnderflow)
            } else {
                match self@.stack[self@.stack.len() - 1] {
                    ValueView::Int(value) => Ok(value),
                    _ => Err(RuntimeErrorKind::WrongKind),
                }
            },
    {
        let n = self.stack.len();
        if n < 1 {
            return Err(RuntimeErrorKind::StackUnderflow);
        }
        match &self.stack[n - 1] {
            Value::Int(value) => Ok(*value),
            _ => Err(RuntimeErrorKind::WrongKind),
        }
    }

    fn binary(&mut self, instruction: &Instruction)
        requires
            is_binary(instruction@),
            old(self).pc < usize::MAX,
        ensures
            final(self)@ == binary(old(self)@, instruction@),
    {
        let n = self.stack.len();
        if n < 2 {
            self.fail(RuntimeErrorKind::StackUnderflow);
            return ;
        }
        let operands = match (&self.stack[n - 2], &self.stack[n - 1]) {
            (Value::Int(a), Value::Int(b)) => Some((*a, *b)),
            _ => None,
        };
        match operands {
            None => self.fail(RuntimeErrorKind::WrongKind),
            Some((a, b)) => match binary_value(instruction, a, b) {
                Err(kind) => self.fail(kind),
                Ok(result) => {
                    let ghost before = self@;
                    self.pop();
                    self.pop();
                    assert(self@.stack =~= before.stack.subrange(0, n - 2));
                    self.push(Value::Int(result));
                },
            },
        }
    }

    fn not(&mut self)
        requires
            old(self).pc < usize::MAX,
        ensures
            final(self)@ == (if old(self)@.stack.len() < 1 {
                fail(old(self)@, RuntimeErrorKind::StackUnderflow)
            } else {
                match old(self)@.stack[old(self)@.stack.len() - 1] {
                    ValueView::Int(a) => push(
                        State {
                            stack: old(self)@.stack.subrange(0, old(self)@.stack.len() - 1),
                            ..old(self)@
                        },
                        ValueView::Int(truth(a == 0)),
                    ),
                    _ => fail(old(self)@, RuntimeErrorKind::WrongKind),
                }
            }),
    {
        match self.top_int() {
            Err(kind) => self.fail(kind),
            Ok(a) => {
                self.pop();
                self.push(Value::Int(if a == 0 {
                    1
                } else {
                    0
                }));
            },
        }
    }

    fn reserve(&mut self, global: Global)
        requires
            old(self).pc < usize::MAX,
        ensures
            final(self)@ == reserve(old(self)@, global@),
    {
        let ghost before = self@;
        match find_global(&self.globals, &global.name) {
            Some(i) => {
                self.globals.set(i, global);
                assert(self@.globals =~= before.globals.update(i as int, global@));
            },
            None => {
                self.globals.push(global);
                assert(self@.globals =~= before.globals.push(global@));
            },
        }
        self.pc = self.pc + 1;
    }

    fn reserve_text(&mut self, name: &String, size: u64, initial_value: &String)
        requires
            old(self).pc < usize::MAX,
        ensures
            final(self)@ == (if vstd::utf8::encode_utf8(initial_value@).len() <= size {
                reserve(
                    old(self)@,
                    GlobalView {
                        name: name@,
                        value: ValueView::Text(initial_value@),
                        capacity: size,
                    },
                )
            } else {
                fail(old(self)@, RuntimeErrorKind::OutOfRange)
            }),
    {
        if initial_value.as_str().as_bytes().len() as u64 <= size {
            self.reserve(
                Global { name: name.clone(), value: Value::Text(initial_value.clone()), capacity: size },
            );
        } else {
            self.fail(RuntimeErrorKind::OutOfRange);
        }
    }

    fn read(&mut self, name: &String)
        requires
            old(self).pc < usize::MAX,
        ensures
            final(self)@ == (match global_index(old(self)@.globals, name@, 0) {
                Some(i) => push(old(self)@, old(self)@.globals[i].value),
                None => fail(old(self)@, RuntimeErrorKind::OutOfRange),
            }),
    {
        match find_global(&self.globals, name) {
            Some(i) => {
                let value = self.globals[i].value.copy();
                self.push(value);
            },
            None => self.fail(RuntimeErrorKind::OutOfRange),
        }
    }

    /// Whether the value on top of the stack may be written to global `i`.
    fn fits(&self, i: usize) -> (fits: Result<(), RuntimeErrorKind>)
        requires
            i < self.globals@.len(),
            self.stack@.len() > 0,
        ensures
            fits == fits_global(self@.globals[i as int], self@.stack[self@.stack.len() - 1]),
    {
        let n = self.stack.len();
        match (&self.globals[i].value, &self.stack[n - 1]) {
            (Value::Int(_), Value::Int(_)) => Ok(()),
            (Value::Text(_), Value::Text(text)) => {
                if text.as_str().as_bytes().len() as u64 <= self.globals[i].capacity {
                    Ok(())
                } else {
                    Err(RuntimeErrorKind::OutOfRange)
                }
            },
            _ => Err(RuntimeErrorKind::WrongKind),
        }
    }

    fn write(&mut self, name: &String)
        requires
            old(self).pc < usize::MAX,
        ensures
            final(self)@ == (if old(self)@.stack.len() < 1 {
                fail(old(self)@, RuntimeErrorKind::StackUnderflow)
            } else {
                match global_index(old(self)@.globals, name@, 0) {
                    None => fail(old(self)@, RuntimeErrorKind::OutOfRange),
                    Some(i) => match fits_global(
                        old(self)@.globals[i],
                        old(self)@.stack[old(self)@.stack.len() - 1],
                    ) {
                        Err(kind) => fail(old(self)@, kind),
                        Ok(()) => advance(
                            State {
                                stack: old(self)@.stack.subrange(0, old(self)@.stack.len() - 1),
                                globals: old(self)@.globals.update(
                                    i,
                                    GlobalView {
                                        value: old(self)@.stack[old(self)@.stack.len() - 1],
                                        ..old(self)@.globals[i]
                                    },
                                ),
                                ..old(self)@
                            },
                        ),
                    },
                }
            }),
    {
        if self.stack.len() < 1 {
            self.fail(RuntimeErrorKind::StackUnderflow);
            return ;
        }
        match find_global(&self.globals, name) {
            None => self.fail(RuntimeErrorKind::OutOfRange),
            Some(i) => match self.fits(i) {
                Err(kind) => self.fail(kind),
                Ok(()) => {
                    let ghost before = self@;
                    let value = self.pop();
                    let global = Global {
                        name: self.globals[i].name.clone(),
                        value,
                        capacity: self.globals[i].capacity,
                    };
                    self.globals.set(i, global);
                    assert(self@.globals =~= before.globals.update(
                        i as int,
                        GlobalView {
                            value: before.stack[before.stack.len() - 1],
                            ..before.globals[i as int]
                        },
                    ));
                    self.pc = self.pc + 1;
                },
            },
        }
    }

    fn arg_local_read(&mut self, index: u64)
        requires
            old(self).pc < usize::MAX,
        ensures
            final(self)@ == (if old(self)@.frames.len() < 1 || index >= old(self)@.frames[old(
                self,
            )@.frames.len() - 1].locals.len() {
                fail(old(self)@, RuntimeErrorKind::OutOfRange)
            } else {
                push(
                    old(self)@,
                    old(self)@.frames[old(self)@.frames.len() - 1].locals[index as int],
                )
            }),
    {
        let depth = self.frames.len();
        if depth < 1 || index >= self.frames[depth - 1].locals.len() as u64 {
            self.fail(RuntimeErrorKind::OutOfRange);
            return ;
        }
        let value = self.frames[depth - 1].locals[index as usize].copy();
        self.push(value);
    }

    fn arg_local_write(&mut self, index: u64)
        requires
            old(self).pc < usize::MAX,
        ensures
            final(self)@ == (if old(self)@.stack.len() < 1 {
                fail(old(self)@, RuntimeErrorKind::StackUnderflow)
            } else if old(self)@.frames.len() < 1 || index >= old(self)@.frames[old(
                self,
            )@.frames.len() - 1].locals.len() {
                fail(old(self)@, RuntimeErrorKind::OutOfRange)
            } else {
                advance(
                    State {
                        stack: old(self)@.stack.subrange(0, old(self)@.stack.len() - 1),
                        frames: old(self)@.frames.update(
                            old(self)@.frames.len() - 1,
                            FrameView {
                                locals: old(self)@.frames[old(self)@.frames.len()
                                    - 1].locals.update(
                                    index as int,
                                    old(self)@.stack[old(self)@.stack.len() - 1],
                                ),
                                ..old(self)@.frames[old(self)@.frames.len() - 1]
                            },
                        ),
                        ..old(self)@
                    },
                )
            }),
    {
        if self.stack.len() < 1 {
            self.fail(RuntimeErrorKind::StackUnderflow);
            return ;
        }
        let depth = self.frames.len();
        if depth < 1 || index >= self.frames[depth - 1].locals.len() as u64 {
            self.fail(RuntimeErrorKind::OutOfRange);
            return ;
        }
        let ghost before = self@;
        let value = self.pop();
        let mut frame = match self.frames.pop() {
            Some(frame) => frame,
            None => Frame { locals: Vec::new(), return_to: 0 },
        };
        let ghost old_frame = frame@;
        frame.locals.set(index as usize, value);
        assert(frame@.locals =~= old_frame.locals.update(index as int, value@));
        self.frames.push(frame);
        assert(self@.frames =~= before.frames.update(
            depth - 1,
            FrameView {
                locals: before.frames[depth - 1].locals.update(
                    index as int,
                    before.stack[before.stack.len() - 1],
                ),
                ..before.frames[depth - 1]
            },
        ));
        self.pc = self.pc + 1;
    }

    fn jump(&mut self, program: &[Instruction], label: &Label)
        ensures
            final(self)@ == jump(program_view(program@), old(self)@, label@),
    {
        let found = resolve_label(program, label);
        if found.count == 0 {
            self.fail(RuntimeErrorKind::UnresolvedLabel);
        } else if found.count > 1 {
            self.fail(RuntimeErrorKind::AmbiguousLabel);
        } else {
            self.pc = found.first;
        }
    }

    fn branch_zero(&mut self, program: &[Instruction], label: &Label)
        requires
            old(self).pc < usize::MAX,
        ensures
            final(self)@ == branch_zero(program_view(program@), old(self)@, label@),
    {
        match self.top_int() {
            Err(kind) => self.fail(kind),
            Ok(value) => {
                if value == 0 {
                    let found = resolve_label(program, label);
                    if found.count == 0 {
                        self.fail(RuntimeErrorKind::UnresolvedLabel);
                    } else if found.count > 1 {
                        self.fail(RuntimeErrorKind::AmbiguousLabel);
                    } else {
                        self.pop();
                        self.pc = found.first;
                    }
                } else {
                    self.pop();
                    self.pc = self.pc + 1;
                }
            },
        }
    }

    fn ret(&mut self)
        ensures
            final(self)@ == (if old(self)@.frames.len() < 1 {
                fail(old(self)@, RuntimeErrorKind::StackUnderflow)
            } else {
                State {
                    pc: old(self)@.frames[old(self)@.frames.len() - 1].return_to,
                    frames: old(self)@.frames.subrange(0, old(self)@.frames.len() - 1),
                    ..old(self)@
                }
            }),
    {
        let ghost before = self@;
        match self.frames.pop() {
            None => self.fail(RuntimeErrorKind::StackUnderflow),
            Some(frame) => {
                assert(self@.frames =~= before.frames.subrange(0, before.frames.len() - 1));
                self.pc = frame.return_to;
            },
        }
    }

    fn print_int(&mut self)
        requires
            old(self).pc < usize::MAX,
        ensures
            final(self)@ == (if old(self)@.stack.len() < 1 {
                fail(old(self)@, RuntimeErrorKind::StackUnderflow)
            } else {
                match old(self)@.stack[old(self)@.stack.len() - 1] {
                    ValueView::Int(value) => advance(
                        State {
                            stack: old(self)@.stack.subrange(0, old(self)@.stack.len() - 1),
                            output: old(self)@.output + crate::unparse::signed_decimal(value as int),
                            ..old(self)@
                        },
                    ),
                    _ => fail(old(self)@, RuntimeErrorKind::WrongKind),
                }
            }),
    {
        match self.top_int() {
            Err(kind) => self.fail(kind),
            Ok(value) => {
                self.pop();
                push_signed_decimal(&mut self.output, value as i64);
                self.pc = self.pc + 1;
            },
        }
    }

    fn print_string(&mut self)
        requires
            old(self).pc < usize::MAX,
        ensures
            final(self)@ == (if old(self)@.stack.len() < 1 {
                fail(old(self)@, RuntimeErrorKind::StackUnderflow)
            } else {
                match old(self)@.stack[old(self)@.stack.len() - 1] {
                    ValueView::Text(text) => advance(
                        State {
                            stack: old(self)@.stack.subrange(0, old(self)@.stack.len() - 1),
                            output: old(self)@.output + text,
                            ..old(self)@
                        },
                    ),
                    _ => fail(old(self)@, RuntimeErrorKind::WrongKind),
                }
            }),
    {
        let n = self.stack.len();
        if n < 1 {
            self.fail(RuntimeErrorKind::StackUnderflow);
            return ;
        }
        let is_text = match &self.stack[n - 1] {
            Value::Text(_) => true,
            _ => false,
        };
        if !is_text {
            self.fail(RuntimeErrorKind::WrongKind);
            return ;
        }
        match self.pop() {
            Value::Text(text) => {
                self.output.append(text.as_str());
            },
            _ => {},
        }
        self.pc = self.pc + 1;
    }

    fn push_register(&mut self, number: i64)
        requires
            old(self).pc < usize::MAX,
        ensures
            final(self)@ == (match register_index(old(self)@.registers, number, 0) {
                Some(i) => push(old(self)@, old(self)@.registers[i].value),
                None => fail(old(self)@, RuntimeErrorKind::OutOfRange),
            }),
    {
        match find_register(&self.registers, number) {
            Some(i) => {
                let value = self.registers[i].value.copy();
                self.push(value);
            },
            None => self.fail(RuntimeErrorKind::OutOfRange),
        }
    }

    fn pop_register(&mut self, number: i64)
        requires
            old(self).pc < usize::MAX,
        ensures
            final(self)@ == (if old(self)@.stack.len() < 1 {
                fail(old(self)@, RuntimeErrorKind::StackUnderflow)
            } else {
                let register = RegisterView {
                    number,
                    value: old(self)@.stack[old(self)@.stack.len() - 1],
                };
                let popped = old(self)@.stack.subrange(0, old(self)@.stack.len() - 1);
                match register_index(old(self)@.registers, number, 0) {
                    Some(i) => advance(
                        State {
                            stack: popped,
                            registers: old(self)@.registers.update(i, register),
                            ..old(self)@
                        },
                    ),
                    None => advance(
                        State {
                            stack: popped,
                            registers: old(self)@.registers.push(register),
                            ..old(self)@
                        },
                    ),
                }
            }),
    {
        if self.stack.len() < 1 {
            self.fail(RuntimeErrorKind::StackUnderflow);
            return ;
        }
        let ghost before = self@;
        let value = self.pop();
        let register = Register { number, value };
        match find_register(&self.registers, number) {
            Some(i) => {
                self.registers.set(i, register);
                assert(self@.registers =~= before.registers.update(i as int, register@));
            },
            None => {
                self.registers.push(register);
                assert(self@.registers =~= before.registers.push(register@));
            },
        }
        self.pc = self.pc + 1;
    }

    fn call(&mut self, program: &[Instruction], label: &Label, num_args: u64)
        requires
            old(self).pc < program@.len(),
        ensures
            final(self)@ == call(program_view(program@), old(self)@, label@, num_args),
    {
        let ghost ops = program_view(program@);
        let ghost before = self@;
        let found = resolve_function(program, label);
        if found.count == 0 {
            self.fail(RuntimeErrorKind::UnresolvedLabel);
            return ;
        }
        if found.count > 1 {
            self.fail(RuntimeErrorKind::AmbiguousLabel);
            return ;
        }
        assert(ops[found.first as int] == program@[found.first as int]@);
        let num_locs = match &program[found.first] {
            Instruction::Function { num_locs, .. } => *num_locs,
            _ => {
                self.fail(RuntimeErrorKind::UnresolvedLabel);
                return ;
            },
        };
        if num_args > num_locs || num_locs > 0x7fff_ffff {
            self.fail(RuntimeErrorKind::OutOfRange);
            return ;
        }
        let n = self.stack.len();
        if (n as u64) < num_args {
            self.fail(RuntimeErrorKind::StackUnderflow);
            return ;
        }
        let ghost whole = self.stack@;
        let mut locals = self.stack.split_off(n - num_args as usize);
        let ghost arguments = values_view(locals@);
        proof {
            lemma_values_subrange(whole, 0, n - num_args);
            lemma_values_subrange(whole, n - num_args, n as int);
            assert(arguments =~= new_locals(arguments, locals@.len() as int));
        }
        while locals.len() < num_locs as usize
            invariant
                num_args <= locals@.len() <= num_locs <= 0x7fff_ffff,
                arguments.len() == num_args,
                values_view(locals@) == new_locals(arguments, locals@.len() as int),
            decreases num_locs - locals@.len(),
        {
            proof {
                lemma_values_push(locals@, Value::Int(0));
                assert(new_locals(arguments, locals@.len() as int).push(ValueView::Int(0))
                    =~= new_locals(arguments, locals@.len() as int + 1));
            }
            locals.push(Value::Int(0));
        }
        let frame = Frame { locals, return_to: self.pc + 1 };
        self.frames.push(frame);
        assert(self@.frames =~= before.frames.push(frame@));
        self.pc = found.first + 1;
    }

    /// Executes the instruction at the instruction pointer.
    fn execute(&mut self, program: &[Instruction])
        requires
            old(self).pc < program@.len(),
        ensures
            final(self)@ == execute(program_view(program@), old(self)@),
    {
        let ghost ops = program_view(program@);
        assert(ops[self.pc as int] == program@[self.pc as int]@);
        let instruction = &program[self.pc];
        match instruction {
            Instruction::Nop => self.advance(),
            Instruction::Label(_) => self.advance(),
            Instruction::Function { .. } => self.advance(),
            Instruction::Iconst(value) => {
                if *value < -0x8000_0000 || *value > 0x7fff_ffff {
                    self.fail(RuntimeErrorKind::OutOfRange);
                } else {
                    self.push(Value::Int(*value as i32));
                }
            },
            Instruction::Sconst(text) => self.push(Value::Text(text.clone())),
            Instruction::Not => self.not(),
            Instruction::ReserveInt { name } => self.reserve(
                Global { name: name.clone(), value: Value::Int(0), capacity: 4 },
            ),
            Instruction::ReserveString { size, name, initial_value } => self.reserve_text(
                name,
                *size,
                initial_value,
            ),
            Instruction::Read(name) => self.read(name),
            Instruction::Write(name) => self.write(name),
            Instruction::ArgLocalRead(index) => self.arg_local_read(*index),
            Instruction::ArgLocalWrite(index) => self.arg_local_write(*index),
            Instruction::Jump(label) => self.jump(program, label),
            Instruction::BranchZero(label) => self.branch_zero(program, label),
            Instruction::Call { label, num_args } => self.call(program, label, *num_args),
            Instruction::Ret => self.ret(),
            Instruction::Intrinsic(Intrinsic::Exit) => {
                self.status = Status::Exited;
            },
            Instruction::Intrinsic(Intrinsic::PrintInt) => self.print_int(),
            Instruction::Intrinsic(Intrinsic::PrintString) => self.print_string(),
            Instruction::Push { reg } => self.push_register(*reg),
            Instruction::Pop { reg } => self.pop_register(*reg),
            _ => self.binary(instruction),
        }
    }

    /// Makes one step: executes the instruction at the instruction pointer,
    /// or finishes if there is none. A machine that has stopped stays as it
    /// is.
    pub fn step(&mut self, program: &[Instruction])
        ensures
            final(self)@ == step_of(program_view(program@), old(self)@),
    {
        match self.status {
            Status::Running => {},
            _ => {
                return ;
            },
        }
        if self.pc >= program.len() {
            self.status = Status::Finished;
        } else {
            self.execute(program);
        }
    }

    /// Makes at most `fuel` steps, fewer if the machine stops before.
    pub fn run(&mut self, program: &[Instruction], fuel: u64)
        ensures
            final(self)@ == run_of(program_view(program@), old(self)@, fuel as nat),
    {
        let ghost ops = program_view(program@);
        let mut left = fuel;
        while left > 0
            invariant
                ops == program_view(program@),
                run_of(ops, self@, left as nat) == run_of(ops, old(self)@, fuel as nat),
            decreases left,
        {
            match self.status {
                Status::Running => {},
                _ => {
                    return ;
                },
            }
            self.step(program);
            left -= 1;
        }
    }
}

/// A value that a program leaves on the operand stack.
#[derive(Debug, PartialEq)]
pub enum ProgramStackItem {
    Int(i64),
    String(String),
}

/// The mathematical value of a [`ProgramStackItem`].
pub enum StackItemView {
    Int(i64),
    String(Seq<char>),
}

impl View for ProgramStackItem {
    type V = StackItemView;

    open spec fn view(&self) -> StackItemView {
        match *self {
            ProgramStackItem::Int(value) => StackItemView::Int(value),
            ProgramStackItem::String(text) => StackItemView::String(text@),
        }
    }
}

/// The operand stack that a program leaves behind, bottom first.
#[derive(Debug, PartialEq)]
pub struct ProgramStack(pub Vec<ProgramStackItem>);

impl View for ProgramStack {
    type V = Seq<StackItemView>;

    open spec fn view(&self) -> Seq<StackItemView> {
        Seq::new(self.0@.len(), |i: int| self.0@[i]@)
    }
}

/// A value of the machine as an item of the stack that a program leaves
/// behind.
pub open spec fn item_of(value: ValueView) -> StackItemView {
    match value {
        ValueView::Int(value) => StackItemView::Int(value as i64),
        ValueView::Text(text) => StackItemView::String(text),
    }
}

/// The kind of a stack item that holds an integer.
pub const STACK_INT: u32 = 0;

/// The kind of a stack item that holds a text.
pub const STACK_STR: u32 = 1;

/// An item of a stack as another engine hands it over: its kind, and the
/// integer or the bytes of the text that it holds.
pub struct RawStackItem {
    pub kind: u32,
    pub number: i32,
    pub text: Vec<u8>,
}

/// Why a stack that another engine handed over was not taken.
#[derive(Debug, PartialEq, Eq, Clone, Copy, Structural)]
pub enum StackErrorKind {
    /// An item is neither an integer nor a text.
    InvalidKind,
    /// A text is not UTF-8.
    InvalidUtf8,
}

/// Why a stack that another engine handed over was not taken, and at which
/// item, counted from the top.
#[derive(Debug, PartialEq, Eq, Clone, Copy)]
pub struct StackError {
    pub kind: StackErrorKind,
    pub depth: usize,
}

/// What an item that another engine handed over is.
pub open spec fn raw_item(item: RawStackItem) -> Result<StackItemView, StackErrorKind> {
    if item.kind == STACK_INT {
        Ok(StackItemView::Int(item.number as i64))
    } else if item.kind == STACK_STR {
        if valid_utf8(item.text@) {
            Ok(StackItemView::String(decode_utf8(item.text@)))
        } else {
            Err(StackErrorKind::InvalidUtf8)
        }
    } else {
        Err(StackErrorKind::InvalidKind)
    }
}

/// The depth of the first item from `from` down that cannot be taken.
pub open spec fn first_bad_item(raw: Seq<RawStackItem>, from: int) -> Option<int>
    decreases raw.len() - from,
{
    if from < 0 || from >= raw.len() {
        None
    } else if raw_item(raw[from]) is Err {
        Some(from)
    } else {
        first_bad_item(raw, from + 1)
    }
}

impl RawStackItem {
    /// Takes the item as a value of a program's stack.
    pub fn convert(&self) -> (result: Result<ProgramStackItem, StackErrorKind>)
        ensures
            match raw_item(*self) {
                Ok(item) => result matches Ok(converted) && converted@ == item,
                Err(kind) => result == Err::<ProgramStackItem, StackErrorKind>(kind),
            },
    {
        if self.kind == STACK_INT {
            Ok(ProgramStackItem::Int(self.number as i64))
        } else if self.kind == STACK_STR {
            match utf8_text(self.text.as_slice()) {
                Some(text) => {
                    proof {
                        encode_utf8_decode_utf8(text@);
                    }
                    Ok(ProgramStackItem::String(text.to_owned()))
                },
                None => Err(StackErrorKind::InvalidUtf8),
            }
        } else {
            Err(StackErrorKind::InvalidKind)
        }
    }
}

impl ProgramStack {
    /// The stack that a machine holds, as the result of a program: the same
    /// values, bottom first.
    pub fn of_values(values: Vec<Value>) -> (stack: ProgramStack)
        ensures
            stack@ == values_view(values@).map_values(|value: ValueView| item_of(value)),
    {
        let mut values = values;
        let ghost all = values@;
        let mut top_first: Vec<ProgramStackItem> = Vec::new();
        while values.len() > 0
            invariant
                values@.len() + top_first@.len() == all.len(),
                values@ == all.subrange(0, values@.len() as int),
                forall|i: int|
                    0 <= i < top_first@.len() ==> (#[trigger] top_first@[i])@ == item_of(
                        all[all.len() - 1 - i]@,
                    ),
            decreases values@.len(),
        {
            match values.pop() {
                Some(Value::Int(value)) => top_first.push(ProgramStackItem::Int(value as i64)),
                Some(Value::Text(text)) => top_first.push(ProgramStackItem::String(text)),
                None => {},
            }
        }
        let mut items: Vec<ProgramStackItem> = Vec::new();
        let ghost reversed = top_first@;
        while top_first.len() > 0
            invariant
                top_first@.len() + items@.len() == reversed.len(),
                top_first@ == reversed.subrange(0, top_first@.len() as int),
                forall|i: int|
                    0 <= i < items@.len() ==> #[trigger] items@[i] == reversed[reversed.len() - 1 - i],
            decreases top_first@.len(),
        {
            match top_first.pop() {
                Some(item) => items.push(item),
                None => {},
            }
        }
        let stack = ProgramStack(items);
        assert(stack@ =~= values_view(all).map_values(|value: ValueView| item_of(value)));
        stack
    }

    /// Takes over the stack of another engine, which hands it over top
    /// first. The first item from the top that is neither an integer nor a
    /// text in UTF-8 fails the whole.
    pub fn try_from(top_first: &[RawStackItem]) -> (result: Result<ProgramStack, StackError>)
        ensures
            match first_bad_item(top_first@, 0) {
                Some(depth) => result matches Err(error) && error.depth == depth && raw_item(
                    top_first@[depth],
                ) == Err::<StackItemView, StackErrorKind>(error.kind),
                None => result matches Ok(stack) && stack@.len() == top_first@.len() && forall|
                    i: int,
                |
                    0 <= i < stack@.len() ==> raw_item(top_first@[top_first@.len() - 1 - i]) == Ok::<
                        StackItemView,
                        StackErrorKind,
                    >(#[trigger] stack@[i]),
            },
    {
        let mut taken: Vec<ProgramStackItem> = Vec::new();
        let mut depth: usize = 0;
        while depth < top_first.len()
            invariant
                depth <= top_first@.len(),
                taken@.len() == depth,
                first_bad_item(top_first@, 0) == first_bad_item(top_first@, depth as int),
                forall|i: int|
                    0 <= i < depth ==> raw_item(top_first@[i]) == Ok::<
                        StackItemView,
                        StackErrorKind,
                    >(#[trigger] taken@[i]@),
            decreases top_first@.len() - depth,
        {
            match top_first[depth].convert() {
                Err(kind) => {
                    return Err(StackError { kind, depth });
                },
                Ok(item) => {
                    taken.push(item);
                },
            }
            depth += 1;
        }
        let mut items: Vec<ProgramStackItem> = Vec::new();
        let ghost all = taken@;
        while taken.len() > 0
            invariant
                taken@.len() + items@.len() == all.len(),
                taken@ == all.subrange(0, taken@.len() as int),
                forall|i: int|
                    0 <= i < items@.len() ==> #[trigger] items@[i] == all[all.len() - 1 - i],
            decreases taken@.len(),
        {
            match taken.pop() {
                Some(item) => items.push(item),
                None => {},
            }
        }
        Ok(ProgramStack(items))
    }
}

/// Why a run gave no result.
#[derive(Debug, PartialEq, Eq, Clone, Copy)]
pub enum InterpretError {
    /// The program failed at the instruction with this index.
    Runtime { kind: RuntimeErrorKind, at: usize },
    /// The program was still running when the steps that it was given were
    /// used up.
    OutOfSteps,
}

/// Runs a program from its first instruction for at most `fuel` steps, and
/// returns what it printed and the operand stack that it left, bottom first,
/// if it ran to its end or to an exit within those steps.
pub fn interpret(program: &[Instruction], fuel: u64) -> (result: Result<
    (String, ProgramStack),
    InterpretError,
>)
    ensures
        ({
            let end = run_of(program_view(program@), initial(), fuel as nat);
            match end.status {
                Status::Running => result == Err::<(String, ProgramStack), InterpretError>(
                    InterpretError::OutOfSteps,
                ),
                Status::Failed(kind) => result matches Err(InterpretError::Runtime { kind: told, at })
                    && told == kind && at == end.pc,
                _ => result matches Ok((output, stack)) && output@ == end.output && stack@
                    == end.stack.map_values(|value: ValueView| item_of(value)),
            }
        }),
{
    let mut machine = Machine::new();
    machine.run(program, fuel);
    match machine.status {
        Status::Running => Err(InterpretError::OutOfSteps),
        Status::Failed(kind) => Err(InterpretError::Runtime { kind, at: machine.pc }),
        _ => {
            let Machine { stack, output, .. } = machine;
            Ok((output, ProgramStack::of_values(stack)))
        },
    }
}

} // verus!
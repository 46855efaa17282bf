//! The instruction set: labels, intrinsics and instructions, each with the
//! mathematical value that contracts elsewhere in the crate speak of.

use vstd::prelude::*;

verus! {

/// A name that marks a position in a program and that jumps, branches and
/// calls refer to.
#[derive(Debug, PartialEq)]
pub struct Label(String);

impl View for Label {
    type V = Seq<char>;

    /// The characters of the label's name.
    closed spec fn view(&self) -> Seq<char> {
        self.0@
    }
}

impl Label {
    /// Whether the label's name is a name of the assembly syntax: letters,
    /// numbers, `$` and `_`, at least one. The assembler makes no other
    /// labels. That no two labels of a program share a name is left to
    /// whoever writes the program.
    pub open spec fn well_formed(&self) -> bool {
        crate::grammar::is_name(self@)
    }

    /// Makes the label with the given name.
    pub fn named(name: &str) -> (label: Label)
        ensures
            label@ == name@,
    {
        Label(name.to_owned())
    }

    /// The label's name.
    pub fn name(&self) -> (name: &str)
        ensures
            name@ == self@,
    {
        self.0.as_str()
    }

    /// Whether two labels have the same name.
    pub fn same_as(&self, other: &Label) -> (same: bool)
        ensures
            same == (self@ == other@),
    {
        self.0 == other.0
    }
}

/// A builtin operation of the machine, invoked by name.
#[derive(Debug, PartialEq, Eq, Clone, Copy, Structural)]
pub enum Intrinsic {
    PrintInt,
    PrintString,
    Exit,
}

/// One instruction of the stack machine.
#[derive(Debug, PartialEq)]
pub enum Instruction {
    Nop,
    // Arithmetic and logic
    Iconst(i64),
    Sconst(String),
    Add,
    Sub,
    Mul,
    Div,
    Mod,
    Bor,
    Band,
    Xor,
    Or,
    And,
    Eq,
    Lt,
    Gt,
    Not,
    // Variables
    ReserveString { size: u64, name: String, initial_value: String },
    ReserveInt { name: String },
    Read(String),
    Write(String),
    ArgLocalRead(u64),
    ArgLocalWrite(u64),
    // Control flow
    Label(Label),
    Jump(Label),
    BranchZero(Label),
    // Functions
    Function { label: Label, num_locs: u64 },
    Call { label: Label, num_args: u64 },
    Ret,
    Intrinsic(Intrinsic),
    // Registers named by immediates
    Push { reg: i64 },
    Pop { reg: i64 },
}

/// The mathematical value of an [`Instruction`]: the same cases, with every
/// name and text as a sequence of characters.
pub enum Op {
    Nop,
    Iconst(i64),
    Sconst(Seq<char>),
    Add,
    Sub,
    Mul,
    Div,
    Mod,
    Bor,
    Band,
    Xor,
    Or,
    And,
    Eq,
    Lt,
    Gt,
    Not,
    ReserveString { size: u64, name: Seq<char>, initial_value: Seq<char> },
    ReserveInt { name: Seq<char> },
    Read(Seq<char>),
    Write(Seq<char>),
    ArgLocalRead(u64),
    ArgLocalWrite(u64),
    Label(Seq<char>),
    Jump(Seq<char>),
    BranchZero(Seq<char>),
    Function { label: Seq<char>, num_locs: u64 },
    Call { label: Seq<char>, num_args: u64 },
    Ret,
    Intrinsic(Intrinsic),
    Push { reg: i64 },
    Pop { reg: i64 },
}

impl View for Instruction {
    type V = Op;

    open spec fn view(&self) -> Op {
        match *self {
            Instruction::Nop => Op::Nop,
            Instruction::Iconst(value) => Op::Iconst(value),
            Instruction::Sconst(text) => Op::Sconst(text@),
            Instruction::Add => Op::Add,
            Instruction::Sub => Op::Sub,
            Instruction::Mul => Op::Mul,
            Instruction::Div => Op::Div,
            Instruction::Mod => Op::Mod,
            Instruction::Bor => Op::Bor,
            Instruction::Band => Op::Band,
            Instruction::Xor => Op::Xor,
            Instruction::Or => Op::Or,
            Instruction::And => Op::And,
            Instruction::Eq => Op::Eq,
            Instruction::Lt => Op::Lt,
            Instruction::Gt => Op::Gt,
            Instruction::Not => Op::Not,
            Instruction::ReserveString { size, name, initial_value } => Op::ReserveString {
                size,
                name: name@,
                initial_value: initial_value@,
            },
            Instruction::ReserveInt { name } => Op::ReserveInt { name: name@ },
            Instruction::Read(name) => Op::Read(name@),
            Instruction::Write(name) => Op::Write(name@),
            Instruction::ArgLocalRead(index) => Op::ArgLocalRead(index),
            Instruction::ArgLocalWrite(index) => Op::ArgLocalWrite(index),
            Instruction::Label(label) => Op::Label(label@),
            Instruction::Jump(label) => Op::Jump(label@),
            Instruction::BranchZero(label) => Op::BranchZero(label@),
            Instruction::Function { label, num_locs } => Op::Function { label: label@, num_locs },
            Instruction::Call { label, num_args } => Op::Call { label: label@, num_args },
            Instruction::Ret => Op::Ret,
            Instruction::Intrinsic(intrinsic) => Op::Intrinsic(intrinsic),
            Instruction::Push { reg } => Op::Push { reg },
            Instruction::Pop { reg } => Op::Pop { reg },
        }
    }
}

/// The mathematical value of a program: the value of each instruction, in
/// order.
pub open spec fn program_view(program: Seq<Instruction>) -> Seq<Op> {
    Seq::new(program.len(), |i: int| program[i]@)
}

} // verus!

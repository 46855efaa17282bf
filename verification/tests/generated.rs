//! Round trips of many generated programs.

use aves_ir::assemble::program;
use aves_ir::dump_bytecode::dump_bytecode;
use aves_ir::ir_definition::{Instruction, Intrinsic, Label};
use aves_ir::read_bytecode::read_bytecode;
use aves_ir::unparse::unparse;

/// A small generator of numbers that gives the same numbers each time.
struct Dice(u64);

impl Dice {
    fn roll(&mut self, sides: u64) -> u64 {
        self.0 = self.0.wrapping_mul(6364136223846793005).wrapping_add(1442695040888963407);
        (self.0 >> 33) % sides
    }

    fn pick<'a>(&mut self, from: &[&'a str]) -> &'a str {
        from[self.roll(from.len() as u64) as usize]
    }

    fn name(&mut self) -> String {
        let mut name = String::from(self.pick(&[
            "x", "L", "$t", "_", "caf\u{e9}", "n0", "Z", "not", "ADD", "or", "READ", "iconst", "ret",
            "ARGLOCAL_READ", "exit",
        ]));
        for _ in 0..self.roll(3) {
            name.push_str(self.pick(&["1", "_", "$", "y", "\u{4e16}", "Q", "9"]));
        }
        name
    }

    fn text(&mut self) -> String {
        let mut text = String::new();
        for _ in 0..self.roll(6) {
            text.push_str(self.pick(&[
                "a", " ", "\"", "\\", "\n", "\t", "#", "/*", "*/", "\u{e9}", "\0", "\\n", "0",
            ]));
        }
        text
    }

    fn count(&mut self) -> u64 {
        match self.roll(4) {
            0 => 0,
            1 => self.roll(10),
            2 => 0x7fff_ffff,
            _ => self.roll(0x8000_0000),
        }
    }

    fn signed(&mut self) -> i64 {
        match self.roll(5) {
            0 => 0,
            1 => -1,
            2 => -0x8000_0000,
            3 => 0x7fff_ffff,
            _ => self.roll(0x1_0000_0000) as i64 - 0x8000_0000,
        }
    }

    fn instruction(&mut self) -> Instruction {
        match self.roll(32) {
            0 => Instruction::Nop,
            1 => Instruction::Iconst(self.signed()),
            2 => Instruction::Sconst(self.text()),
            3 => Instruction::Add,
            4 => Instruction::Sub,
            5 => Instruction::Mul,
            6 => Instruction::Div,
            7 => Instruction::Mod,
            8 => Instruction::Bor,
            9 => Instruction::Band,
            10 => Instruction::Xor,
            11 => Instruction::Or,
            12 => Instruction::And,
            13 => Instruction::Eq,
            14 => Instruction::Lt,
            15 => Instruction::Gt,
            16 => Instruction::Not,
            17 => Instruction::ReserveString {
                size: self.count(),
                name: self.name(),
                initial_value: self.text(),
            },
            18 => Instruction::ReserveInt { name: self.name() },
            19 => Instruction::Read(self.name()),
            20 => Instruction::Write(self.name()),
            21 => Instruction::ArgLocalRead(self.count()),
            22 => Instruction::ArgLocalWrite(self.count()),
            23 => Instruction::Label(Label::named(&self.name())),
            24 => Instruction::Jump(Label::named(&self.name())),
            25 => Instruction::BranchZero(Label::named(&self.name())),
            26 => Instruction::Function { label: Label::named(&self.name()), num_locs: self.count() },
            27 => Instruction::Call { label: Label::named(&self.name()), num_args: self.count() },
            28 => Instruction::Ret,
            29 => Instruction::Intrinsic(match self.roll(3) {
                0 => Intrinsic::PrintInt,
                1 => Intrinsic::PrintString,
                _ => Intrinsic::Exit,
            }),
            30 => Instruction::Push { reg: self.signed() },
            _ => Instruction::Pop { reg: self.signed() },
        }
    }

    fn program(&mut self) -> Vec<Instruction> {
        (0..self.roll(12)).map(|_| self.instruction()).collect()
    }
}

#[test]
fn bytes_written_are_read_back() {
    let mut dice = Dice(11);
    for _ in 0..5_000 {
        let generated = dice.program();
        let bytes = dump_bytecode(&generated).unwrap();
        assert_eq!(read_bytecode(&bytes), Ok(generated));
    }
}

#[test]
fn bytes_read_are_written_back() {
    let mut dice = Dice(12);
    let mut read = 0;
    for _ in 0..5_000 {
        let mut bytes = dump_bytecode(&dice.program()).unwrap();
        // Spoil a byte or cut the end off, and see what is still a program.
        if !bytes.is_empty() {
            let at = dice.roll(bytes.len() as u64) as usize;
            if dice.roll(2) == 0 {
                bytes[at] = dice.roll(256) as u8;
            } else {
                bytes.truncate(at);
            }
        }
        if let Ok(decoded) = read_bytecode(&bytes) {
            assert_eq!(dump_bytecode(&decoded), Ok(bytes));
            read += 1;
        }
    }
    assert!(read > 500);
}

#[test]
fn text_printed_is_read_back() {
    let mut dice = Dice(13);
    for _ in 0..5_000 {
        let generated = dice.program();
        let printed = unparse(&generated);
        assert_eq!(program(&printed), Ok(generated), "on {printed:?}");
    }
}

//! A toolchain for a small stack-based intermediate representation: the
//! instruction set, its textual assembly syntax, its binary encoding, and the
//! stack machine that runs it.
//!
//! Each part comes as a mathematical definition and as code that is proved
//! to compute it:
//!
//! - [`ir_definition`] holds the instructions.
//! - [`grammar`] defines the assembly syntax, [`assemble`] parses it, and
//!   [`unparse`] prints the canonical text of a program.
//! - [`wire_format`] defines the binary layout, [`write_bytecode`] and
//!   [`dump_bytecode`] write it, and [`read_bytecode`] reads it.
//! - [`execution`] defines the stack machine, and [`interpret`] runs it.
//! - [`grammar_laws`], [`unparse_laws`] and [`wire_laws`] prove what holds of
//!   all texts, all programs and all bytes: reading inverts writing, and
//!   assembling inverts printing.

pub mod assemble;
pub mod dump_bytecode;
pub mod execution;
pub mod grammar;
pub mod grammar_laws;
pub mod interpret;
pub mod ir_definition;
mod lexical;
pub mod read_bytecode;
pub mod unparse;
pub mod unparse_laws;
pub mod wire_format;
pub mod wire_laws;
pub mod write_bytecode;

//! A program's binary form as a buffer of its own.

use crate::ir_definition::{program_view, Instruction, Intrinsic, Label};
use crate::wire_format::{
    encode_int, encode_program, encode_text, intrinsic_code, le_bytes, EncodeErrorKind,
};
use crate::write_bytecode::{tells, write_bytecode, write_i32, write_i64, EncodeError};
use vstd::prelude::*;

verus! {

/// What a function that makes a buffer returns: the bytes that the wire format
/// defines, or the failure that it defines.
pub open spec fn made(
    result: Result<Vec<u8>, EncodeErrorKind>,
    expected: Result<Seq<u8>, EncodeErrorKind>,
) -> bool {
    match expected {
        Ok(bytes) => result matches Ok(buffer) && buffer@ == bytes,
        Err(kind) => result == Err::<Vec<u8>, EncodeErrorKind>(kind),
    }
}

/// The four little-endian bytes of `value`.
pub fn i32_to_bytecode(value: i32) -> (bytes: Vec<u8>)
    ensures
        bytes@ == le_bytes(value),
{
    let mut bytes: Vec<u8> = Vec::new();
    write_i32(value, &mut bytes);
    assert(bytes@ =~= le_bytes(value));
    bytes
}

/// The four bytes of a signed operand, which must fit the wire's 32 bits.
pub fn i64_to_bytecode(value: i64) -> (result: Result<Vec<u8>, EncodeErrorKind>)
    ensures
        made(result, encode_int(value as int)),
{
    let mut bytes: Vec<u8> = Vec::new();
    match write_i64(value, &mut bytes) {
        Err(kind) => Err(kind),
        Ok(()) => {
            assert(bytes@ =~= encode_int(value as int)->Ok_0);
            Ok(bytes)
        },
    }
}

impl Label {
    /// The label's name as a text on the wire.
    pub fn to_bytecode(&self) -> (result: Result<Vec<u8>, EncodeErrorKind>)
        ensures
            made(result, encode_text(self@)),
    {
        let mut bytes: Vec<u8> = Vec::new();
        match self.write_bytecode(&mut bytes) {
            Err(kind) => Err(kind),
            Ok(()) => {
                assert(bytes@ =~= encode_text(self@)->Ok_0);
                Ok(bytes)
            },
        }
    }
}

impl Intrinsic {
    /// The four bytes of the intrinsic's code.
    pub fn to_bytecode(&self) -> (bytes: Vec<u8>)
        ensures
            bytes@ == le_bytes(intrinsic_code(*self)),
    {
        i32_to_bytecode(self.code())
    }
}

/// A program in its binary form: the encoding of each instruction, in order.
/// If some instruction has an operand that the wire cannot hold, the first
/// such instruction is reported.
pub fn dump_bytecode(ir_list: &[Instruction]) -> (result: Result<Vec<u8>, EncodeError>)
    ensures
        match encode_program(program_view(ir_list@)) {
            Ok(bytes) => result matches Ok(buffer) && buffer@ == bytes,
            Err(failure) => result matches Err(error) && tells(error, failure),
        },
{
    let mut buffer: Vec<u8> = Vec::new();
    match write_bytecode(ir_list, &mut buffer) {
        Err(error) => Err(error),
        Ok(()) => {
            assert(buffer@ =~= encode_program(program_view(ir_list@))->Ok_0);
            Ok(buffer)
        },
    }
}

} // verus!

//! Error types surfaced by the decoder, the execution engine and the loader.

use vstd::prelude::*;

verus! {

/// An instruction word that names no known opcode or sub-opcode.
/// Each variant carries the unrecognized sub-opcode bits of its family.
#[derive(Clone, Copy, Debug, PartialEq, Eq, Structural)]
pub enum DecodeError {
    /// Family 0x0: low twelve bits match neither the clear nor the return form.
    UnknownSysOp(u16),
    /// Family 0x5: the low nibble of a register-compare word must be zero.
    UnknownRegEqOp(u8),
    /// Family 0x8: unrecognized math sub-opcode nibble.
    UnknownMathOp(u8),
    /// Family 0x9: the low nibble of a register-compare word must be zero.
    UnknownRegNeOp(u8),
    /// Family 0xE: unrecognized key-conditional sub-opcode byte.
    UnknownKeyOp(u8),
    /// Family 0xF: unrecognized miscellaneous sub-opcode byte.
    UnknownExtraOp(u8),
}

/// A failure of one fetch-decode-execute step.
#[derive(Clone, Copy, Debug, PartialEq, Eq, Structural)]
pub enum ExecError {
    /// The fetched word did not decode.
    Decode(DecodeError),
    /// A return was executed with an empty call stack.
    StackUnderflow,
}

/// A failure to place a program image into memory.
#[derive(Clone, Copy, Debug, PartialEq, Eq, Structural)]
pub enum LoadError {
    /// The image does not fit between the load offset and the end of memory.
    TooLarge,
}

} // verus!

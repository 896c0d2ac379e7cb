//! The error taxonomy of the decoder and the interpreter.

use vstd::prelude::*;

verus! {

/// Every way a decode or an interpreter run can fail.
///
/// Decoding fails loudly on malformed input: `BadMagic` when the four magic
/// bytes are wrong, `TruncatedInput` when the buffer ends in the middle of a
/// read, `MalformedVarint` when a variable-length integer never terminates
/// within its ten-byte cap.  The interpreter fails its run with
/// `StackUnderflow` when an instruction pops an empty operand stack,
/// `IndexOutOfRange` when a local index is at or past the end of the locals
/// frame, and `UnhandledInstruction` when it fetches an opcode it does not
/// know; the two latter variants carry the offending value for caller-side
/// reporting.
#[derive(Clone, Copy, Debug, PartialEq, Eq, Structural)]
pub enum WasmError {
    BadMagic,
    TruncatedInput,
    MalformedVarint,
    StackUnderflow,
    IndexOutOfRange { index: u64 },
    UnhandledInstruction { opcode: u8 },
}

} // verus!

//! The instruction interpreter: a fetch-decode-execute loop over one
//! decoded function body, against an operand stack and a locals frame.
//!
//! The semantics are given by a small-step specification (`spec_step`, one
//! instruction) and its iteration (`spec_exec`); `VM::run` is verified to
//! compute exactly what the specification says, for every body.

use vstd::prelude::*;

use crate::cursor::clone_bytes;
use crate::cursor::Cursor;
use crate::error::WasmError;
use crate::varint::lemma_read_varint_bounds;
use crate::varint::read_varint;
use crate::varint::spec_read_varint;

verus! {

/// One typed operand value.  The interpreter's current instruction subset
/// only moves values between the stack and the locals frame, never computes
/// on them, so float values are carried as their raw bits and no
/// floating-point arithmetic exists here.
#[derive(Clone, Copy, Debug, PartialEq, Eq, Structural)]
pub enum Value {
    I32 { val: i32 },
    I64 { val: i64 },
    F32Bits { bits: u32 },
    F64Bits { bits: u64 },
}

/// The zero value a fresh local slot holds.  Locals are declared by a flat
/// count without per-slot types, so every slot starts as a zero 32-bit
/// integer.
pub open spec fn zero_value() -> Value {
    Value::I32 { val: 0 }
}

/// The interpreter's whole state between instructions: the operand stack,
/// the locals frame, and the position of the next opcode in the body.
pub ghost struct VmStateV {
    pub stack: Seq<Value>,
    pub locals: Seq<Value>,
    pub pos: int,
}

/// The opcodes this interpreter knows.
pub open spec fn is_handled_opcode(op: u8) -> bool {
    0x20 <= op <= 0x24
}

/// One fetch-decode-execute step at `st.pos` (which must be inside the
/// body): the next state, or the error that ends the run.
///
/// - `0x20` `local.get x`: push `locals[x]`; `IndexOutOfRange` when `x` is
///   at or past the frame's end.
/// - `0x21` `local.set x`: pop into `locals[x]`; `StackUnderflow` on an
///   empty stack.
/// - `0x22` `local.tee x`: store the top into `locals[x]` without popping.
/// - `0x23`/`0x24` `global.get/set x`: the opcode and its operand encoding
///   are recognized, but no global store backs them yet; the state is left
///   unchanged.  This is a documented extension point, not a silent no-op
///   of a known operation.
/// - anything else: `UnhandledInstruction` carrying the opcode.  Operand
///   encodings vary by opcode, so guessing a length would corrupt the
///   decode position of everything after it.
pub open spec fn spec_step(code: Seq<u8>, st: VmStateV) -> Result<VmStateV, WasmError>
    recommends
        0 <= st.pos < code.len(),
{
    let op = code[st.pos];
    if op == 0x20 {
        match spec_read_varint(code, st.pos + 1) {
            Err(e) => Err(e),
            Ok((idx, k)) => if idx >= st.locals.len() {
                Err(WasmError::IndexOutOfRange { index: idx })
            } else {
                Ok(
                    (VmStateV {
                        stack: st.stack.push(st.locals[idx as int]),
                        locals: st.locals,
                        pos: st.pos + 1 + k,
                    }),
                )
            },
        }
    } else if op == 0x21 {
        match spec_read_varint(code, st.pos + 1) {
            Err(e) => Err(e),
            Ok((idx, k)) => if idx >= st.locals.len() {
                Err(WasmError::IndexOutOfRange { index: idx })
            } else if st.stack.len() == 0 {
                Err(WasmError::StackUnderflow)
            } else {
                Ok(
                    (VmStateV {
                        stack: st.stack.drop_last(),
                        locals: st.locals.update(idx as int, st.stack.last()),
                        pos: st.pos + 1 + k,
                    }),
                )
            },
        }
    } else if op == 0x22 {
        match spec_read_varint(code, st.pos + 1) {
            Err(e) => Err(e),
            Ok((idx, k)) => if idx >= st.locals.len() {
                Err(WasmError::IndexOutOfRange { index: idx })
            } else if st.stack.len() == 0 {
                Err(WasmError::StackUnderflow)
            } else {
                Ok(
                    (VmStateV {
                        stack: st.stack,
                        locals: st.locals.update(idx as int, st.stack.last()),
                        pos: st.pos + 1 + k,
                    }),
                )
            },
        }
    } else if op == 0x23 || op == 0x24 {
        match spec_read_varint(code, st.pos + 1) {
            Err(e) => Err(e),
            Ok((idx, k)) => Ok((VmStateV { stack: st.stack, locals: st.locals, pos: st.pos + 1 + k })),
        }
    } else {
        Err(WasmError::UnhandledInstruction { opcode: op })
    }
}

/// A successful step lands strictly further into the body.
pub proof fn lemma_step_bounds(code: Seq<u8>, st: VmStateV)
    requires
        0 <= st.pos < code.len(),
    ensures
        spec_step(code, st) matches Ok(st2) ==> st.pos < st2.pos <= code.len(),
{
    lemma_read_varint_bounds(code, st.pos + 1);
}

/// Run from `st` until the body is exhausted (success, yielding the final
/// state) or a step fails.  There is no terminator opcode in this core's
/// scope: the stream's end is the only normal exit.
pub open spec fn spec_exec(code: Seq<u8>, st: VmStateV) -> Result<VmStateV, WasmError>
    decreases code.len() - st.pos,
        when 0 <= st.pos <= code.len()
{
    if st.pos >= code.len() {
        Ok(st)
    } else {
        match spec_step(code, st) {
            Err(e) => Err(e),
            Ok(st2) => {
                proof {
                    lemma_step_bounds(code, st);
                }
                spec_exec(code, st2)
            },
        }
    }
}

/// Running one whole body: read the leading varint locals count, start from
/// a zero-filled locals frame of that size and the caller's operand stack,
/// and execute to the end of the byte stream.
pub open spec fn spec_run(code: Seq<u8>, stack0: Seq<Value>) -> Result<VmStateV, WasmError> {
    match spec_read_varint(code, 0) {
        Err(e) => Err(e),
        Ok((nlocals, k)) => spec_exec(
            code,
            VmStateV {
                stack: stack0,
                locals: Seq::new(nlocals as nat, |i: int| zero_value()),
                pos: k,
            },
        ),
    }
}

/// The interpreter.  One invocation of `run` owns the operand stack and the
/// locals frame exclusively; nothing is shared across runs.
pub struct VM {
    pub stack: Vec<Value>,
    pub locals: Vec<Value>,
}

impl VM {
    /// A fresh interpreter with an empty operand stack and no locals.
    pub fn new() -> (vm: VM)
        ensures
            vm.stack@ == Seq::<Value>::empty(),
            vm.locals@ == Seq::<Value>::empty(),
    {
        VM { stack: Vec::new(), locals: Vec::new() }
    }

    /// Execute one already-fetched instruction.  `instr` is the opcode byte
    /// just read at `cur.pos - 1`; the cursor sits on the instruction's
    /// operand bytes.  On an error the interpreter's state is untouched.
    pub fn handle_istr(&mut self, instr: u8, cur: &mut Cursor) -> (r: Result<(), WasmError>)
        requires
            old(cur).wf(),
            old(cur).pos >= 1,
            old(cur).bytes@[old(cur).pos - 1] == instr,
        ensures
            final(cur).wf(),
            final(cur).bytes@ == old(cur).bytes@,
            ({
                let st = (VmStateV {
                    stack: old(self).stack@,
                    locals: old(self).locals@,
                    pos: old(cur).pos - 1,
                });
                match r {
                    Ok(_) => spec_step(old(cur).bytes@, st) == Ok::<VmStateV, WasmError>(
                        (VmStateV {
                            stack: final(self).stack@,
                            locals: final(self).locals@,
                            pos: final(cur).pos as int,
                        }),
                    ),
                    Err(e) => spec_step(old(cur).bytes@, st) == Err::<VmStateV, WasmError>(e)
                        && *final(self) == *old(self),
                }
            }),
    {
        match instr {
            0x20 => {
                // local.get x
                let idx = match read_varint(cur) {
                    Ok(v) => v,
                    Err(e) => { return Err(e) },
                };
                if idx >= self.locals.len() as u64 {
                    return Err(WasmError::IndexOutOfRange { index: idx });
                }
                let v = self.locals[idx as usize];
                self.stack.push(v);
                Ok(())
            },
            0x21 => {
                // local.set x
                let idx = match read_varint(cur) {
                    Ok(v) => v,
                    Err(e) => { return Err(e) },
                };
                if idx >= self.locals.len() as u64 {
                    return Err(WasmError::IndexOutOfRange { index: idx });
                }
                if self.stack.len() == 0 {
                    return Err(WasmError::StackUnderflow);
                }
                let v = match self.stack.pop() {
                    Some(v) => v,
                    None => {
                        proof {
                            assert(false);
                        }
                        return Err(WasmError::StackUnderflow);
                    },
                };
                self.locals[idx as usize] = v;
                proof {
                    assert(self.stack@ =~= old(self).stack@.drop_last());
                }
                Ok(())
            },
            0x22 => {
                // local.tee x: store the top of the stack without popping
                let idx = match read_varint(cur) {
                    Ok(v) => v,
                    Err(e) => { return Err(e) },
                };
                if idx >= self.locals.len() as u64 {
                    return Err(WasmError::IndexOutOfRange { index: idx });
                }
                if self.stack.len() == 0 {
                    return Err(WasmError::StackUnderflow);
                }
                let v = self.stack[self.stack.len() - 1];
                self.locals[idx as usize] = v;
                Ok(())
            },
            0x23 | 0x24 => {
                // global.get / global.set: the operand index is decoded,
                // but no module-level global store backs it in this core
                let _gidx = match read_varint(cur) {
                    Ok(v) => v,
                    Err(e) => { return Err(e) },
                };
                Ok(())
            },
            _ => Err(WasmError::UnhandledInstruction { opcode: instr }),
        }
    }

    /// Run one function body to completion: parse its leading varint locals
    /// count, zero-fill that many locals, then fetch and execute opcodes
    /// until the byte stream is exhausted or an instruction fails.  The
    /// operand stack starts as whatever the interpreter already holds (empty
    /// for a fresh one); on success the final stack and locals are exactly
    /// what the small-step specification yields.  On an error the run ends
    /// at the failing instruction: either the locals count itself was
    /// unreadable and the interpreter is untouched, or the interpreter is
    /// left in a state from which the specification fails with that very
    /// error.
    #[verifier::loop_isolation(false)]
    pub fn run(&mut self, code: &Vec<u8>) -> (r: Result<(), WasmError>)
        ensures
            match r {
                Ok(_) => spec_run(code@, old(self).stack@) matches Ok(st) && final(self).stack@
                    == st.stack && final(self).locals@ == st.locals && st.pos == code@.len(),
                Err(e) => {
                    &&& spec_run(code@, old(self).stack@) == Err::<VmStateV, WasmError>(e)
                    &&& ((spec_read_varint(code@, 0) == Err::<(u64, int), WasmError>(e)
                        && *final(self) == *old(self)) || (exists|p: int|
                        0 <= p < code@.len() && spec_exec(
                            code@,
                            (VmStateV {
                                stack: final(self).stack@,
                                locals: final(self).locals@,
                                pos: p,
                            }),
                        ) == Err::<VmStateV, WasmError>(e)))
                },
            },
    {
        let mut cur = Cursor::new(clone_bytes(code));
        let nlocals = match read_varint(&mut cur) {
            Ok(v) => v,
            Err(e) => { return Err(e) },
        };
        self.locals = Vec::new();
        let mut i: u64 = 0;
        while i < nlocals
            invariant
                i <= nlocals,
                self.locals@ == Seq::new(i as nat, |j: int| zero_value()),
                self.stack@ == old(self).stack@,
            decreases nlocals - i,
        {
            self.locals.push(Value::I32 { val: 0 });
            i = i + 1;
            proof {
                assert(self.locals@ =~= Seq::new(i as nat, |j: int| zero_value()));
            }
        }
        let ghost goal = spec_run(code@, old(self).stack@);
        proof {
            lemma_read_varint_bounds(code@, 0);
        }
        while cur.pos < cur.bytes.len()
            invariant
                cur.wf(),
                cur.bytes@ == code@,
                goal == spec_exec(
                    code@,
                    (VmStateV { stack: self.stack@, locals: self.locals@, pos: cur.pos as int }),
                ),
            decreases code@.len() - cur.pos,
        {
            let op = match cur.read_u8() {
                Ok(b) => b,
                Err(_) => {
                    proof {
                        assert(false);
                    }
                    return Err(WasmError::TruncatedInput);
                },
            };
            let ghost pre = (VmStateV {
                stack: self.stack@,
                locals: self.locals@,
                pos: cur.pos - 1,
            });
            match self.handle_istr(op, &mut cur) {
                Ok(_) => {
                    proof {
                        lemma_step_bounds(code@, pre);
                    }
                },
                Err(e) => { return Err(e) },
            }
        }
        Ok(())
    }
}

// ---------------------------------------------------------------------------
// Laws.
// ---------------------------------------------------------------------------
/// Law: an unhandled opcode halts execution at once.  The moment the fetch
/// at `st.pos` yields an opcode outside the handled set, the whole run's
/// outcome is `UnhandledInstruction` carrying that opcode: no instruction
/// after it executes.
pub proof fn lemma_unhandled_opcode_halts(code: Seq<u8>, st: VmStateV)
    requires
        0 <= st.pos < code.len(),
        !is_handled_opcode(code[st.pos]),
    ensures
        spec_exec(code, st) == Err::<VmStateV, WasmError>(
            (WasmError::UnhandledInstruction { opcode: code[st.pos] }),
        ),
{
}

/// Law: an out-of-bounds local index is a fatal error, never a read of
/// adjacent state or a default value.  For any of the three local
/// instructions, an operand index at or past the frame's end (the frame's
/// length itself is the first such index) ends the run with
/// `IndexOutOfRange` carrying that index.
pub proof fn lemma_local_index_out_of_range(code: Seq<u8>, st: VmStateV, idx: u64, k: int)
    requires
        0 <= st.pos < code.len(),
        code[st.pos] == 0x20 || code[st.pos] == 0x21 || code[st.pos] == 0x22,
        spec_read_varint(code, st.pos + 1) == Ok::<(u64, int), WasmError>((idx, k)),
        idx >= st.locals.len(),
    ensures
        spec_exec(code, st) == Err::<VmStateV, WasmError>(
            (WasmError::IndexOutOfRange { index: idx }),
        ),
{
}

} // verus!

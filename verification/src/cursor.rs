//! A position-tracking forward cursor over an immutable byte buffer.
//!
//! All decoding goes through this type: exact-length reads, single-byte
//! reads, and draining the rest of the buffer.  A read that would run past
//! the end fails with `TruncatedInput` and leaves the position where it was.

use vstd::prelude::*;

use crate::error::WasmError;

verus! {

/// A forward-only view over a byte buffer.  `pos` is the offset of the next
/// unread byte; bytes before `pos` have been consumed.
pub struct Cursor {
    pub bytes: Vec<u8>,
    pub pos: usize,
}

impl Cursor {
    /// The cursor is well formed when its position is inside the buffer
    /// (one past the last byte counts as inside: the exhausted cursor).
    pub open spec fn wf(&self) -> bool {
        self.pos <= self.bytes@.len()
    }

    pub fn new(bytes: Vec<u8>) -> (c: Cursor)
        ensures
            c.wf(),
            c.bytes@ == bytes@,
            c.pos == 0,
    {
        Cursor { bytes, pos: 0 }
    }

    /// How many bytes are left to read.
    pub fn remaining(&self) -> (n: usize)
        requires
            self.wf(),
        ensures
            n == self.bytes@.len() - self.pos,
    {
        self.bytes.len() - self.pos
    }

    /// Whether at least one byte is left.
    pub fn has_remaining(&self) -> (b: bool)
        requires
            self.wf(),
        ensures
            b == (self.pos < self.bytes@.len()),
    {
        self.pos < self.bytes.len()
    }

    /// Read one byte and advance; `TruncatedInput` at the end of the buffer.
    pub fn read_u8(&mut self) -> (r: Result<u8, WasmError>)
        requires
            old(self).wf(),
        ensures
            final(self).wf(),
            final(self).bytes@ == old(self).bytes@,
            match r {
                Ok(b) => {
                    &&& old(self).pos < old(self).bytes@.len()
                    &&& b == old(self).bytes@[old(self).pos as int]
                    &&& final(self).pos == old(self).pos + 1
                },
                Err(e) => {
                    &&& e == WasmError::TruncatedInput
                    &&& old(self).pos == old(self).bytes@.len()
                    &&& final(self).pos == old(self).pos
                },
            },
    {
        if self.pos < self.bytes.len() {
            let b = self.bytes[self.pos];
            self.pos = self.pos + 1;
            Ok(b)
        } else {
            Err(WasmError::TruncatedInput)
        }
    }

    /// Read exactly `n` bytes and advance past them; `TruncatedInput`, with
    /// the position unchanged, when fewer than `n` remain.
    pub fn read_exact(&mut self, n: usize) -> (r: Result<Vec<u8>, WasmError>)
        requires
            old(self).wf(),
        ensures
            final(self).wf(),
            final(self).bytes@ == old(self).bytes@,
            match r {
                Ok(out) => {
                    &&& n <= old(self).bytes@.len() - old(self).pos
                    &&& out@ == old(self).bytes@.subrange(
                        old(self).pos as int,
                        old(self).pos + n,
                    )
                    &&& final(self).pos == old(self).pos + n
                },
                Err(e) => {
                    &&& e == WasmError::TruncatedInput
                    &&& n > old(self).bytes@.len() - old(self).pos
                    &&& final(self).pos == old(self).pos
                },
            },
    {
        if n > self.bytes.len() - self.pos {
            return Err(WasmError::TruncatedInput);
        }
        let mut out: Vec<u8> = Vec::new();
        let mut i: usize = 0;
        while i < n
            invariant
                self.wf(),
                self.bytes@ == old(self).bytes@,
                self.pos == old(self).pos,
                i <= n,
                n <= self.bytes@.len() - self.pos,
                self.bytes@.len() <= usize::MAX,
                out@ == self.bytes@.subrange(self.pos as int, self.pos + i),
            decreases n - i,
        {
            let b = self.bytes[self.pos + i];
            out.push(b);
            i = i + 1;
            assert(out@ =~= self.bytes@.subrange(self.pos as int, self.pos + i));
        }
        self.pos = self.pos + n;
        Ok(out)
    }

    /// Drain whatever is left, advancing to the end of the buffer.  Used
    /// only to capture unparsed trailing bytes for diagnostics.
    pub fn read_to_end(&mut self) -> (out: Vec<u8>)
        requires
            old(self).wf(),
        ensures
            final(self).wf(),
            final(self).bytes@ == old(self).bytes@,
            out@ == old(self).bytes@.subrange(old(self).pos as int, old(self).bytes@.len() as int),
            final(self).pos == final(self).bytes@.len(),
    {
        let n = self.bytes.len() - self.pos;
        let r = self.read_exact(n);
        match r {
            Ok(out) => out,
            Err(_) => {
                // read_exact of exactly the remaining length cannot fail
                proof {
                    assert(false);
                }
                Vec::new()
            },
        }
    }

    /// The value of four little-endian bytes: the first byte holds the least
    /// significant eight bits.
    pub open spec fn le_u32_value(s: Seq<u8>) -> nat
        recommends
            s.len() == 4,
    {
        (s[0] as nat) + 0x100 * (s[1] as nat) + 0x1_0000 * (s[2] as nat) + 0x100_0000 * (
        s[3] as nat)
    }

    /// Read a 4-byte little-endian unsigned integer.
    pub fn read_u32_le(&mut self) -> (r: Result<u32, WasmError>)
        requires
            old(self).wf(),
        ensures
            final(self).wf(),
            final(self).bytes@ == old(self).bytes@,
            match r {
                Ok(v) => {
                    &&& 4 <= old(self).bytes@.len() - old(self).pos
                    &&& v == Self::le_u32_value(
                        old(self).bytes@.subrange(old(self).pos as int, old(self).pos + 4),
                    )
                    &&& final(self).pos == old(self).pos + 4
                },
                Err(e) => {
                    &&& e == WasmError::TruncatedInput
                    &&& old(self).bytes@.len() - old(self).pos < 4
                    &&& final(self).pos == old(self).pos
                },
            },
    {
        if self.bytes.len() - self.pos < 4 {
            return Err(WasmError::TruncatedInput);
        }
        let b0 = self.bytes[self.pos];
        let b1 = self.bytes[self.pos + 1];
        let b2 = self.bytes[self.pos + 2];
        let b3 = self.bytes[self.pos + 3];
        self.pos = self.pos + 4;
        let v: u32 = (b0 as u32) + 0x100 * (b1 as u32) + 0x1_0000 * (b2 as u32) + 0x100_0000 * (
        b3 as u32);
        Ok(v)
    }
}

/// An element-for-element copy of a byte vector, so that a borrowed buffer
/// can be handed to an owning `Cursor`.
pub fn clone_bytes(src: &Vec<u8>) -> (out: Vec<u8>)
    ensures
        out@ == src@,
{
    let mut out: Vec<u8> = Vec::new();
    let mut i: usize = 0;
    while i < src.len()
        invariant
            i <= src@.len(),
            out@ == src@.subrange(0, i as int),
        decreases src@.len() - i,
    {
        out.push(src[i]);
        i = i + 1;
        assert(out@ =~= src@.subrange(0, i as int));
    }
    assert(out@ =~= src@);
    out
}

} // verus!

//! The unsigned variable-length integer codec (base-128, continuation bit).
//!
//! Each byte carries seven payload bits in its low half; a set high bit says
//! more bytes follow.  Groups come least-significant first.  The decoder
//! caps an encoding at ten bytes (enough for 64 bits) and fails with
//! `MalformedVarint` beyond that, so corrupt input cannot drive unbounded
//! reads.

use vstd::prelude::*;

use crate::cursor::Cursor;
use crate::error::WasmError;

verus! {

/// The longest encoding the decoder accepts: ten 7-bit groups cover 64 bits.
pub const MAX_VARINT_BYTES: usize = 10;

/// The mathematical value of a varint byte group: the low seven bits of the
/// first byte are the least significant.
pub open spec fn varint_value(s: Seq<u8>) -> nat
    decreases s.len(),
{
    if s.len() == 0 {
        0
    } else {
        ((s[0] as nat) % 0x80) + 0x80 * varint_value(s.skip(1))
    }
}

/// A well-formed, complete varint byte group: every byte but the last has
/// the continuation bit set, and the last has it clear.
pub open spec fn varint_terminated(s: Seq<u8>) -> bool {
    &&& s.len() >= 1
    &&& (forall|i: int| 0 <= i < s.len() - 1 ==> s[i] >= 0x80)
    &&& s[s.len() - 1] < 0x80
}

/// The number of bytes up to and including the first byte at or after `pos`
/// with a clear continuation bit, or `None` when the buffer ends first.
pub open spec fn varint_scan(s: Seq<u8>, pos: int) -> Option<int>
    decreases s.len() - pos,
{
    if pos < 0 || pos >= s.len() {
        None
    } else if s[pos] < 0x80 {
        Some(1)
    } else {
        match varint_scan(s, pos + 1) {
            None => None,
            Some(k) => Some(k + 1),
        }
    }
}

/// What reading a varint at `pos` yields: the decoded value (reduced to 64
/// bits) and the number of bytes consumed, or the exact error.  Ten
/// continuation bytes in a row are `MalformedVarint` whether or not the
/// buffer ends below them; a buffer that ends sooner, before a terminating
/// byte, is `TruncatedInput`.
pub open spec fn spec_read_varint(s: Seq<u8>, pos: int) -> Result<(u64, int), WasmError> {
    match varint_scan(s, pos) {
        Some(k) => if k <= MAX_VARINT_BYTES {
            Ok(((varint_value(s.subrange(pos, pos + k)) % 0x1_0000_0000_0000_0000) as u64, k))
        } else {
            Err(WasmError::MalformedVarint)
        },
        None => if s.len() - pos >= MAX_VARINT_BYTES {
            Err(WasmError::MalformedVarint)
        } else {
            Err(WasmError::TruncatedInput)
        },
    }
}

/// The canonical encoding of a value: emit low seven bits with the
/// continuation bit while more than seven bits remain.
pub open spec fn spec_encode_varint(v: nat) -> Seq<u8>
    decreases v,
{
    if v < 0x80 {
        seq![v as u8]
    } else {
        seq![((v % 0x80) + 0x80) as u8] + spec_encode_varint(v / 0x80)
    }
}

/// 128 raised to `n`; the weight of the `n`-th varint byte group.
pub open spec fn pow128(n: nat) -> nat
    decreases n,
{
    if n == 0 {
        1
    } else {
        0x80 * pow128((n - 1) as nat)
    }
}

/// A complete varint group's value is below the weight of the next group.
proof fn lemma_varint_value_bound(s: Seq<u8>)
    ensures
        varint_value(s) < pow128(s.len()),
    decreases s.len(),
{
    if s.len() > 0 {
        lemma_varint_value_bound(s.skip(1));
        assert(varint_value(s) == ((s[0] as nat) % 0x80) + 0x80 * varint_value(s.skip(1)));
        assert(0x80 * varint_value(s.skip(1)) <= 0x80 * (pow128(s.skip(1).len()) - 1))
            by (nonlinear_arith)
            requires
                varint_value(s.skip(1)) <= pow128(s.skip(1).len()) - 1,
        ;
    }
}

proof fn lemma_pow128_le(a: nat, b: nat)
    requires
        a <= b,
    ensures
        pow128(a) <= pow128(b),
    decreases b,
{
    if a < b && b > 0 {
        lemma_pow128_le(a, (b - 1) as nat);
        assert(pow128((b - 1) as nat) <= 0x80 * pow128((b - 1) as nat)) by (nonlinear_arith)
            requires
                pow128((b - 1) as nat) >= 0,
        ;
    }
}

/// Scanning from `pos` past `i` continuation bytes lands where scanning from
/// `pos + i` does, `i` bytes later.
proof fn lemma_varint_scan_shift(s: Seq<u8>, pos: int, i: int)
    requires
        0 <= pos,
        0 <= i,
        pos + i <= s.len(),
        forall|j: int| pos <= j < pos + i ==> s[j] >= 0x80,
    ensures
        varint_scan(s, pos) == match varint_scan(s, pos + i) {
            None => None::<int>,
            Some(k) => Some(k + i),
        },
    decreases i,
{
    if i > 0 {
        lemma_varint_scan_shift(s, pos + 1, i - 1);
    }
}

/// A scan that finds a terminator stays inside the buffer and consumes at
/// least the terminating byte.
proof fn lemma_varint_scan_bounds(s: Seq<u8>, pos: int)
    requires
        0 <= pos,
    ensures
        varint_scan(s, pos) matches Some(k) ==> 1 <= k && pos + k <= s.len(),
    decreases s.len() - pos,
{
    if pos < s.len() && s[pos] >= 0x80 {
        lemma_varint_scan_bounds(s, pos + 1);
    }
}

/// A successful varint read consumes between one and ten bytes, all inside
/// the buffer.
pub proof fn lemma_read_varint_bounds(s: Seq<u8>, pos: int)
    requires
        0 <= pos,
    ensures
        spec_read_varint(s, pos) matches Ok(p) ==> 1 <= p.1 <= MAX_VARINT_BYTES && pos + p.1
            <= s.len(),
{
    lemma_varint_scan_bounds(s, pos);
}

/// The value of one byte group, computed back to front: prepending a byte
/// multiplies the tail's value by 128 and adds the byte's payload.
///
/// This is the definition of `varint_value` itself; the lemma below restates
/// it over subranges, the shape the decoder's loop needs.
proof fn lemma_varint_value_subrange_step(s: Seq<u8>, lo: int, hi: int)
    requires
        0 <= lo < hi <= s.len(),
    ensures
        varint_value(s.subrange(lo, hi)) == ((s[lo] as nat) % 0x80) + 0x80 * varint_value(
            s.subrange(lo + 1, hi),
        ),
{
    assert(s.subrange(lo, hi).skip(1) =~= s.subrange(lo + 1, hi));
}

/// Find the end of the varint that starts at `pos`: the byte count through
/// the first clear continuation bit, or the exact error when there is none
/// within the ten-byte cap.
fn scan_varint(bytes: &Vec<u8>, pos: usize) -> (r: Result<usize, WasmError>)
    requires
        pos <= bytes@.len(),
    ensures
        match r {
            Ok(k) => {
                &&& varint_scan(bytes@, pos as int) == Some(k as int)
                &&& 1 <= k <= MAX_VARINT_BYTES
                &&& pos + k <= bytes@.len()
            },
            Err(e) => {
                &&& spec_read_varint(bytes@, pos as int) == Err::<(u64, int), WasmError>(e)
            },
        },
{
    let n = bytes.len();
    let mut i: usize = 0;
    while i < MAX_VARINT_BYTES
        invariant
            pos <= n == bytes@.len(),
            i <= MAX_VARINT_BYTES,
            pos + i <= n,
            forall|j: int| pos <= j < pos + i ==> bytes@[j] >= 0x80,
        ensures
            pos + i <= n,
            forall|j: int| pos <= j < pos + i ==> bytes@[j] >= 0x80,
            i == MAX_VARINT_BYTES || pos + i == n || (pos + i < n && bytes@[pos + i] < 0x80),
        decreases MAX_VARINT_BYTES - i,
    {
        if pos + i == n {
            break ;
        }
        if bytes[pos + i] < 0x80 {
            break ;
        }
        i = i + 1;
    }
    proof {
        lemma_varint_scan_shift(bytes@, pos as int, i as int);
    }
    if i < MAX_VARINT_BYTES {
        if pos + i == n {
            // the buffer ended before a terminating byte, within the cap
            Err(WasmError::TruncatedInput)
        } else {
            Ok(i + 1)
        }
    } else {
        // ten continuation bytes in a row
        proof {
            lemma_varint_scan_bounds(bytes@, pos + i as int);
        }
        Err(WasmError::MalformedVarint)
    }
}

/// Read one unsigned varint at the cursor, advancing past it on success.
pub fn read_varint(cur: &mut Cursor) -> (r: Result<u64, WasmError>)
    requires
        old(cur).wf(),
    ensures
        final(cur).wf(),
        final(cur).bytes@ == old(cur).bytes@,
        match r {
            Ok(v) => {
                &&& spec_read_varint(old(cur).bytes@, old(cur).pos as int) == Ok::<
                    (u64, int),
                    WasmError,
                >((v, final(cur).pos - old(cur).pos))
                &&& old(cur).pos < final(cur).pos <= old(cur).bytes@.len()
            },
            Err(e) => {
                &&& spec_read_varint(old(cur).bytes@, old(cur).pos as int) == Err::<
                    (u64, int),
                    WasmError,
                >(e)
                &&& final(cur).pos == old(cur).pos
            },
        },
{
    let ghost s = cur.bytes@;
    // an executable length read bounds the view's length by usize::MAX,
    // which the value loop below needs for its index arithmetic
    let blen = cur.bytes.len();
    assert(s.len() == blen);
    let pos = cur.pos;
    let k = match scan_varint(&cur.bytes, pos) {
        Ok(k) => k,
        Err(e) => { return Err(e) },
    };
    // compute the value back to front so each step matches the definition
    let mut acc: u128 = 0;
    let mut j: usize = k;
    while j > 0
        invariant
            pos + k <= s.len(),
            s == cur.bytes@,
            j <= k <= MAX_VARINT_BYTES,
            s.len() <= usize::MAX,
            acc == varint_value(s.subrange(pos + j, pos + k)),
            acc < pow128((k - j) as nat),
        decreases j,
    {
        j = j - 1;
        let b = cur.bytes[pos + j];
        proof {
            lemma_varint_value_subrange_step(s, pos + j, pos + k as int);
            lemma_pow128_le((k - j - 1) as nat, 9);
            assert(pow128(9) == 0x8000_0000_0000_0000) by {
                reveal_with_fuel(pow128, 10);
            }
            assert(0x80 * acc + ((b as nat) % 0x80) < 0x80 * pow128((k - j - 1) as nat))
                by (nonlinear_arith)
                requires
                    acc < pow128((k - j - 1) as nat),
                    ((b as nat) % 0x80) < 0x80,
            ;
        }
        acc = 0x80 * acc + (b % 0x80) as u128;
    }
    assert(s.subrange(pos as int, pos + k) == s.subrange(pos + j, pos + k));
    let v: u64 = (acc % 0x1_0000_0000_0000_0000) as u64;
    cur.pos = pos + k;
    Ok(v)
}

/// Encode a value as a varint.  The result is the canonical encoding:
/// well formed, at most ten bytes, and decoding it yields the value back.
pub fn encode_varint(v: u64) -> (out: Vec<u8>)
    ensures
        out@ == spec_encode_varint(v as nat),
{
    let mut out: Vec<u8> = Vec::new();
    let mut x: u64 = v;
    while x >= 0x80
        invariant
            spec_encode_varint(v as nat) == out@ + spec_encode_varint(x as nat),
        decreases x,
    {
        let ghost x0 = x as nat;
        out.push((x % 0x80 + 0x80) as u8);
        x = x / 0x80;
        proof {
            assert(spec_encode_varint(x0) == seq![((x0 % 0x80) + 0x80) as u8]
                + spec_encode_varint(x0 / 0x80));
            assert(out@ + spec_encode_varint(x as nat) =~= spec_encode_varint(v as nat));
        }
    }
    out.push(x as u8);
    proof {
        assert(spec_encode_varint(x as nat) =~= seq![x as u8]);
        assert(out@ =~= spec_encode_varint(v as nat));
    }
    out
}

/// The encoding of a value is a single complete byte group holding exactly
/// that value.
proof fn lemma_encode_well_formed(v: nat)
    ensures
        varint_terminated(spec_encode_varint(v)),
        varint_value(spec_encode_varint(v)) == v,
        spec_encode_varint(v).len() >= 1,
    decreases v,
{
    if v < 0x80 {
        assert(varint_value(spec_encode_varint(v)) == v % 0x80 + 0x80 * varint_value(
            spec_encode_varint(v).skip(1),
        ));
        assert(spec_encode_varint(v).skip(1) =~= Seq::<u8>::empty());
    } else {
        lemma_encode_well_formed(v / 0x80);
        let rest = spec_encode_varint(v / 0x80);
        let whole = spec_encode_varint(v);
        assert(whole == seq![((v % 0x80) + 0x80) as u8] + rest);
        assert(whole.skip(1) =~= rest);
        assert(whole[whole.len() - 1] == rest[rest.len() - 1]);
        assert(forall|i: int| 0 < i < whole.len() - 1 ==> whole[i] == rest[i - 1]);
        assert(varint_value(whole) == ((whole[0] as nat) % 0x80) + 0x80 * varint_value(rest));
        assert((whole[0] as nat) % 0x80 == v % 0x80);
        assert(v % 0x80 + 0x80 * (v / 0x80) == v) by (nonlinear_arith);
    }
}

/// A value below `128^n` needs at most `n` byte groups.
proof fn lemma_encode_len(v: nat, n: nat)
    requires
        n >= 1,
        v < pow128(n),
    ensures
        spec_encode_varint(v).len() <= n,
    decreases n,
{
    if v >= 0x80 {
        assert(pow128(1) == 0x80) by {
            reveal_with_fuel(pow128, 2);
        }
        assert(n >= 2) by {
            if n == 1 {
                assert(v < pow128(1));
            }
        }
        assert(v / 0x80 < pow128((n - 1) as nat)) by (nonlinear_arith)
            requires
                v < 0x80 * pow128((n - 1) as nat),
        ;
        lemma_encode_len(v / 0x80, (n - 1) as nat);
    }
}

/// Law: varint round-trip.  Every unsigned 64-bit value has a well-formed
/// encoding of at most ten bytes whose group value is the value itself.
pub proof fn lemma_varint_round_trip(v: u64)
    ensures
        varint_terminated(spec_encode_varint(v as nat)),
        1 <= spec_encode_varint(v as nat).len() <= MAX_VARINT_BYTES,
        varint_value(spec_encode_varint(v as nat)) == v,
{
    lemma_encode_well_formed(v as nat);
    assert(pow128(10) == 0x40_0000_0000_0000_0000) by {
        reveal_with_fuel(pow128, 11);
    }
    lemma_encode_len(v as nat, 10);
}

/// Law: varint round-trip through a buffer.  Wherever the encoding of `v`
/// sits in a buffer, reading a varint at its start yields `v` back and
/// consumes exactly the encoded bytes.
pub proof fn lemma_varint_decode_at(s: Seq<u8>, pos: int, v: u64)
    requires
        0 <= pos,
        pos + spec_encode_varint(v as nat).len() <= s.len(),
        s.subrange(pos, pos + spec_encode_varint(v as nat).len()) == spec_encode_varint(v as nat),
    ensures
        spec_read_varint(s, pos) == Ok::<(u64, int), WasmError>((
            v,
            spec_encode_varint(v as nat).len() as int,
        )),
{
    let enc = spec_encode_varint(v as nat);
    let k = enc.len() as int;
    lemma_varint_round_trip(v);
    assert forall|j: int| pos <= j < pos + k - 1 implies s[j] >= 0x80 by {
        assert(s[j] == enc[j - pos]);
    }
    assert(s[pos + k - 1] == enc[k - 1]);
    lemma_varint_scan_shift(s, pos, k - 1);
    assert(varint_scan(s, pos + k - 1) == Some(1int));
    assert(varint_scan(s, pos) == Some(k));
    assert(varint_value(s.subrange(pos, pos + k)) == v);
    assert((v as nat) % 0x1_0000_0000_0000_0000 == v);
}

} // verus!

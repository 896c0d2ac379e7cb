//! The module decoder: header check, section loop, and the four section
//! decoders (type, function, export, code).
//!
//! Every decoder is verified against a specification-level parser over the
//! byte sequence.  The spec parsers below are the single source of truth
//! for what each decoder accepts and produces; the executable functions'
//! contracts say they compute exactly the spec parsers' results.

use vstd::prelude::*;

use crate::cursor::clone_bytes;
use crate::cursor::Cursor;
use crate::error::WasmError;
use crate::text::utf8_lossy;
use crate::text::utf8_lossy_decode;
use crate::types::ExportV;
use crate::types::FunctionSigV;
use crate::types::{Export, ExportDesc, FunctionSig, SectionID, ValueType};
use crate::varint::lemma_read_varint_bounds;
use crate::varint::read_varint;
use crate::varint::spec_read_varint;

verus! {

/// The four fixed magic bytes that open every module: `\0asm`.
pub open spec fn magic_bytes() -> Seq<u8> {
    seq![0x00u8, 0x61u8, 0x73u8, 0x6Du8]
}

/// The decoded module: type signatures, function-to-type bindings, exports,
/// raw function bodies, the section tags seen in input order, and whatever
/// trailing bytes were left unparsed (captured for diagnostics only).
#[derive(Debug)]
pub struct CWasm {
    pub functionsigs: Vec<FunctionSig>,
    pub functions: Vec<u32>,
    pub exports: Vec<Export>,
    pub codes: Vec<Vec<u8>>,
    pub sections: Vec<SectionID>,
    pub trailing: Vec<u8>,
}

/// The mathematical view of a decoded module.
pub ghost struct ModuleV {
    pub functionsigs: Seq<FunctionSigV>,
    pub functions: Seq<u32>,
    pub exports: Seq<ExportV>,
    pub codes: Seq<Seq<u8>>,
    pub sections: Seq<SectionID>,
    pub trailing: Seq<u8>,
}

impl View for CWasm {
    type V = ModuleV;

    open spec fn view(&self) -> ModuleV {
        ModuleV {
            functionsigs: self.functionsigs@.map_values(|f: FunctionSig| f@),
            functions: self.functions@,
            exports: self.exports@.map_values(|e: Export| e@),
            codes: self.codes@.map_values(|c: Vec<u8>| c@),
            sections: self.sections@,
            trailing: self.trailing@,
        }
    }
}

/// The module with nothing decoded yet.
pub open spec fn empty_module() -> ModuleV {
    ModuleV {
        functionsigs: Seq::empty(),
        functions: Seq::empty(),
        exports: Seq::empty(),
        codes: Seq::empty(),
        sections: Seq::empty(),
        trailing: Seq::empty(),
    }
}

// ---------------------------------------------------------------------------
// Specification-level parsers.
// ---------------------------------------------------------------------------
/// `n` single-byte value-type codes at `pos`: the types in input order and
/// the position after them, or `TruncatedInput` when the buffer ends first.
pub open spec fn spec_parse_valtypes(s: Seq<u8>, pos: int, n: nat) -> Result<
    (Seq<ValueType>, int),
    WasmError,
>
    decreases n,
{
    if n == 0 {
        Ok((Seq::empty(), pos))
    } else if pos < 0 || pos >= s.len() {
        Err(WasmError::TruncatedInput)
    } else {
        match spec_parse_valtypes(s, pos + 1, (n - 1) as nat) {
            Err(e) => Err(e),
            Ok((rest, end)) => Ok((seq![ValueType::spec_from_u8(s[pos])] + rest, end)),
        }
    }
}

/// One type-section entry at `pos`.  A leading byte other than the function
/// type tag `0x60` halts the section without an error: the entry yields
/// `None` and the position just past the offending byte.  Otherwise the
/// entry is a varint parameter count, that many value-type bytes, a varint
/// return count, and that many value-type bytes.
pub open spec fn spec_parse_sig_entry(s: Seq<u8>, pos: int) -> Result<
    (Option<FunctionSigV>, int),
    WasmError,
> {
    if pos < 0 || pos >= s.len() {
        Err(WasmError::TruncatedInput)
    } else if s[pos] != 0x60 {
        Ok((None, pos + 1))
    } else {
        match spec_read_varint(s, pos + 1) {
            Err(e) => Err(e),
            Ok((nparams, k1)) => match spec_parse_valtypes(s, pos + 1 + k1, nparams as nat) {
                Err(e) => Err(e),
                Ok((params, p2)) => match spec_read_varint(s, p2) {
                    Err(e) => Err(e),
                    Ok((nreturns, k2)) => match spec_parse_valtypes(s, p2 + k2, nreturns as nat) {
                        Err(e) => Err(e),
                        Ok((rets, p3)) => Ok(
                            ((Some(FunctionSigV { params, returns: rets })), p3),
                        ),
                    },
                },
            },
        }
    }
}

/// Up to `n` type-section entries at `pos`: the signatures parsed before
/// either `n` ran out or an entry halted on a bad tag, and the position
/// after the last byte consumed.
pub open spec fn spec_parse_sigs(s: Seq<u8>, pos: int, n: nat) -> Result<
    (Seq<FunctionSigV>, int),
    WasmError,
>
    decreases n,
{
    if n == 0 {
        Ok((Seq::empty(), pos))
    } else {
        match spec_parse_sig_entry(s, pos) {
            Err(e) => Err(e),
            Ok((None, end)) => Ok((Seq::empty(), end)),
            Ok((Some(sig), p)) => match spec_parse_sigs(s, p, (n - 1) as nat) {
                Err(e) => Err(e),
                Ok((rest, end)) => Ok((seq![sig] + rest, end)),
            },
        }
    }
}

/// The type section's content at `pos`: a varint entry count, then that
/// many entries.
pub open spec fn spec_parse_type_section(s: Seq<u8>, pos: int) -> Result<
    (Seq<FunctionSigV>, int),
    WasmError,
> {
    match spec_read_varint(s, pos) {
        Err(e) => Err(e),
        Ok((n, k)) => spec_parse_sigs(s, pos + k, n as nat),
    }
}

/// `n` varint type-indices at `pos`, each reduced to 32 bits.
pub open spec fn spec_parse_indices(s: Seq<u8>, pos: int, n: nat) -> Result<
    (Seq<u32>, int),
    WasmError,
>
    decreases n,
{
    if n == 0 {
        Ok((Seq::empty(), pos))
    } else {
        match spec_read_varint(s, pos) {
            Err(e) => Err(e),
            Ok((v, k)) => match spec_parse_indices(s, pos + k, (n - 1) as nat) {
                Err(e) => Err(e),
                Ok((rest, end)) => Ok((seq![((v as nat) % 0x1_0000_0000) as u32] + rest, end)),
            },
        }
    }
}

/// The function section's content at `pos`: a varint count, then that many
/// varint indices into the type section's output.
pub open spec fn spec_parse_function_section(s: Seq<u8>, pos: int) -> Result<
    (Seq<u32>, int),
    WasmError,
> {
    match spec_read_varint(s, pos) {
        Err(e) => Err(e),
        Ok((n, k)) => spec_parse_indices(s, pos + k, n as nat),
    }
}

/// A length-prefixed name at `pos`: a varint byte length, then that many
/// bytes, decoded lossily to characters.
pub open spec fn spec_read_str(s: Seq<u8>, pos: int) -> Result<(Seq<char>, int), WasmError> {
    match spec_read_varint(s, pos) {
        Err(e) => Err(e),
        Ok((len, k)) => if len > s.len() - (pos + k) {
            Err(WasmError::TruncatedInput)
        } else {
            Ok((utf8_lossy(s.subrange(pos + k, pos + k + len)), pos + k + len))
        },
    }
}

/// One export entry at `pos`: a length-prefixed name, a kind byte, and a
/// varint index reduced to 32 bits.
pub open spec fn spec_parse_export_entry(s: Seq<u8>, pos: int) -> Result<(ExportV, int), WasmError> {
    match spec_read_str(s, pos) {
        Err(e) => Err(e),
        Ok((name, p1)) => if p1 >= s.len() {
            Err(WasmError::TruncatedInput)
        } else {
            match spec_read_varint(s, p1 + 1) {
                Err(e) => Err(e),
                Ok((idx, k)) => Ok(
                    (
                        (ExportV {
                            name,
                            desc: ExportDesc::spec_from_u8(s[p1]),
                            idx: ((idx as nat) % 0x1_0000_0000) as u32,
                        }),
                        p1 + 1 + k,
                    ),
                ),
            }
        },
    }
}

/// `n` export entries at `pos`, in input order.
pub open spec fn spec_parse_exports(s: Seq<u8>, pos: int, n: nat) -> Result<
    (Seq<ExportV>, int),
    WasmError,
>
    decreases n,
{
    if n == 0 {
        Ok((Seq::empty(), pos))
    } else {
        match spec_parse_export_entry(s, pos) {
            Err(e) => Err(e),
            Ok((exp, p)) => match spec_parse_exports(s, p, (n - 1) as nat) {
                Err(e) => Err(e),
                Ok((rest, end)) => Ok((seq![exp] + rest, end)),
            },
        }
    }
}

/// The export section's content at `pos`: a varint entry count, then that
/// many entries.
pub open spec fn spec_parse_export_section(s: Seq<u8>, pos: int) -> Result<
    (Seq<ExportV>, int),
    WasmError,
> {
    match spec_read_varint(s, pos) {
        Err(e) => Err(e),
        Ok((n, k)) => spec_parse_exports(s, pos + k, n as nat),
    }
}

/// `n` code bodies at `pos`: each a varint byte length then that many raw
/// bytes, kept verbatim.
pub open spec fn spec_parse_codes(s: Seq<u8>, pos: int, n: nat) -> Result<
    (Seq<Seq<u8>>, int),
    WasmError,
>
    decreases n,
{
    if n == 0 {
        Ok((Seq::empty(), pos))
    } else {
        match spec_read_varint(s, pos) {
            Err(e) => Err(e),
            Ok((sz, k)) => if sz > s.len() - (pos + k) {
                Err(WasmError::TruncatedInput)
            } else {
                match spec_parse_codes(s, pos + k + sz, (n - 1) as nat) {
                    Err(e) => Err(e),
                    Ok((rest, end)) => Ok(
                        (seq![s.subrange(pos + k, pos + k + sz)] + rest, end),
                    ),
                }
            },
        }
    }
}

/// The code section's content at `pos`: a varint body count, then that many
/// length-prefixed bodies.
pub open spec fn spec_parse_code_section(s: Seq<u8>, pos: int) -> Result<
    (Seq<Seq<u8>>, int),
    WasmError,
> {
    match spec_read_varint(s, pos) {
        Err(e) => Err(e),
        Ok((n, k)) => spec_parse_codes(s, pos + k, n as nat),
    }
}

// ---------------------------------------------------------------------------
// Every spec parser stays inside the buffer and never moves backwards.
// These bounds also justify termination of the section loop below.
// ---------------------------------------------------------------------------
pub proof fn lemma_parse_valtypes_bounds(s: Seq<u8>, pos: int, n: nat)
    requires
        0 <= pos <= s.len(),
    ensures
        spec_parse_valtypes(s, pos, n) matches Ok(p) ==> pos <= p.1 <= s.len(),
    decreases n,
{
    if n > 0 && pos < s.len() {
        lemma_parse_valtypes_bounds(s, pos + 1, (n - 1) as nat);
    }
}

pub proof fn lemma_parse_sig_entry_bounds(s: Seq<u8>, pos: int)
    requires
        0 <= pos <= s.len(),
    ensures
        spec_parse_sig_entry(s, pos) matches Ok(p) ==> pos < p.1 <= s.len(),
{
    if pos < s.len() && s[pos] == 0x60 {
        lemma_read_varint_bounds(s, pos + 1);
        match spec_read_varint(s, pos + 1) {
            Ok((nparams, k1)) => {
                lemma_parse_valtypes_bounds(s, pos + 1 + k1, nparams as nat);
                match spec_parse_valtypes(s, pos + 1 + k1, nparams as nat) {
                    Ok((_, p2)) => {
                        lemma_read_varint_bounds(s, p2);
                        match spec_read_varint(s, p2) {
                            Ok((nreturns, k2)) => {
                                lemma_parse_valtypes_bounds(s, p2 + k2, nreturns as nat);
                            },
                            Err(_) => {},
                        }
                    },
                    Err(_) => {},
                }
            },
            Err(_) => {},
        }
    }
}

pub proof fn lemma_parse_sigs_bounds(s: Seq<u8>, pos: int, n: nat)
    requires
        0 <= pos <= s.len(),
    ensures
        spec_parse_sigs(s, pos, n) matches Ok(p) ==> pos <= p.1 <= s.len(),
    decreases n,
{
    if n > 0 {
        lemma_parse_sig_entry_bounds(s, pos);
        match spec_parse_sig_entry(s, pos) {
            Ok((Some(_), p)) => {
                lemma_parse_sigs_bounds(s, p, (n - 1) as nat);
            },
            _ => {},
        }
    }
}

pub proof fn lemma_parse_type_section_bounds(s: Seq<u8>, pos: int)
    requires
        0 <= pos <= s.len(),
    ensures
        spec_parse_type_section(s, pos) matches Ok(p) ==> pos <= p.1 <= s.len(),
{
    lemma_read_varint_bounds(s, pos);
    match spec_read_varint(s, pos) {
        Ok((n, k)) => {
            lemma_parse_sigs_bounds(s, pos + k, n as nat);
        },
        Err(_) => {},
    }
}

pub proof fn lemma_parse_indices_bounds(s: Seq<u8>, pos: int, n: nat)
    requires
        0 <= pos <= s.len(),
    ensures
        spec_parse_indices(s, pos, n) matches Ok(p) ==> pos <= p.1 <= s.len(),
    decreases n,
{
    if n > 0 {
        lemma_read_varint_bounds(s, pos);
        match spec_read_varint(s, pos) {
            Ok((_, k)) => {
                lemma_parse_indices_bounds(s, pos + k, (n - 1) as nat);
            },
            Err(_) => {},
        }
    }
}

pub proof fn lemma_parse_function_section_bounds(s: Seq<u8>, pos: int)
    requires
        0 <= pos <= s.len(),
    ensures
        spec_parse_function_section(s, pos) matches Ok(p) ==> pos <= p.1 <= s.len(),
{
    lemma_read_varint_bounds(s, pos);
    match spec_read_varint(s, pos) {
        Ok((n, k)) => {
            lemma_parse_indices_bounds(s, pos + k, n as nat);
        },
        Err(_) => {},
    }
}

pub proof fn lemma_read_str_bounds(s: Seq<u8>, pos: int)
    requires
        0 <= pos <= s.len(),
    ensures
        spec_read_str(s, pos) matches Ok(p) ==> pos <= p.1 <= s.len(),
{
    lemma_read_varint_bounds(s, pos);
}

pub proof fn lemma_parse_export_entry_bounds(s: Seq<u8>, pos: int)
    requires
        0 <= pos <= s.len(),
    ensures
        spec_parse_export_entry(s, pos) matches Ok(p) ==> pos < p.1 <= s.len(),
{
    lemma_read_str_bounds(s, pos);
    match spec_read_str(s, pos) {
        Ok((_, p1)) => {
            if p1 < s.len() {
                lemma_read_varint_bounds(s, p1 + 1);
            }
        },
        Err(_) => {},
    }
}

pub proof fn lemma_parse_exports_bounds(s: Seq<u8>, pos: int, n: nat)
    requires
        0 <= pos <= s.len(),
    ensures
        spec_parse_exports(s, pos, n) matches Ok(p) ==> pos <= p.1 <= s.len(),
    decreases n,
{
    if n > 0 {
        lemma_parse_export_entry_bounds(s, pos);
        match spec_parse_export_entry(s, pos) {
            Ok((_, p)) => {
                lemma_parse_exports_bounds(s, p, (n - 1) as nat);
            },
            Err(_) => {},
        }
    }
}

pub proof fn lemma_parse_export_section_bounds(s: Seq<u8>, pos: int)
    requires
        0 <= pos <= s.len(),
    ensures
        spec_parse_export_section(s, pos) matches Ok(p) ==> pos <= p.1 <= s.len(),
{
    lemma_read_varint_bounds(s, pos);
    match spec_read_varint(s, pos) {
        Ok((n, k)) => {
            lemma_parse_exports_bounds(s, pos + k, n as nat);
        },
        Err(_) => {},
    }
}

pub proof fn lemma_parse_codes_bounds(s: Seq<u8>, pos: int, n: nat)
    requires
        0 <= pos <= s.len(),
    ensures
        spec_parse_codes(s, pos, n) matches Ok(p) ==> pos <= p.1 <= s.len(),
    decreases n,
{
    if n > 0 {
        lemma_read_varint_bounds(s, pos);
        match spec_read_varint(s, pos) {
            Ok((sz, k)) => {
                if sz <= s.len() - (pos + k) {
                    lemma_parse_codes_bounds(s, pos + k + sz, (n - 1) as nat);
                }
            },
            Err(_) => {},
        }
    }
}

pub proof fn lemma_parse_code_section_bounds(s: Seq<u8>, pos: int)
    requires
        0 <= pos <= s.len(),
    ensures
        spec_parse_code_section(s, pos) matches Ok(p) ==> pos <= p.1 <= s.len(),
{
    lemma_read_varint_bounds(s, pos);
    match spec_read_varint(s, pos) {
        Ok((n, k)) => {
            lemma_parse_codes_bounds(s, pos + k, n as nat);
        },
        Err(_) => {},
    }
}

// ---------------------------------------------------------------------------
// The section loop and the whole module.
// ---------------------------------------------------------------------------
/// The section loop from `pos`, with `acc` holding what earlier sections
/// produced.  Each iteration reads an id byte and a varint content length,
/// records the tag, and dispatches to the section's parser; a tag without a
/// decoder halts the loop, and the rest of the buffer becomes the trailing
/// diagnostic bytes.  A later section of the same kind replaces the earlier
/// one's output, as the decoders are assignments, not appends.
pub open spec fn spec_parse_sections(s: Seq<u8>, pos: int, acc: ModuleV) -> Result<
    ModuleV,
    WasmError,
>
    decreases s.len() - pos,
        when 0 <= pos <= s.len()
{
    if pos >= s.len() {
        Ok(ModuleV { trailing: Seq::empty(), ..acc })
    } else {
        let id = SectionID::spec_from_u8(s[pos]);
        let acc1 = ModuleV { sections: acc.sections.push(id), ..acc };
        match spec_read_varint(s, pos + 1) {
            Err(e) => Err(e),
            Ok((_size, k)) => {
                let body = pos + 1 + k;
                if id == SectionID::TypeSection {
                    match spec_parse_type_section(s, body) {
                        Err(e) => Err(e),
                        Ok((sigs, end)) => {
                            proof {
                                lemma_read_varint_bounds(s, pos + 1);
                                lemma_parse_type_section_bounds(s, body);
                            }
                            spec_parse_sections(s, end, ModuleV { functionsigs: sigs, ..acc1 })
                        },
                    }
                } else if id == SectionID::FunctionSection {
                    match spec_parse_function_section(s, body) {
                        Err(e) => Err(e),
                        Ok((idxs, end)) => {
                            proof {
                                lemma_read_varint_bounds(s, pos + 1);
                                lemma_parse_function_section_bounds(s, body);
                            }
                            spec_parse_sections(s, end, ModuleV { functions: idxs, ..acc1 })
                        },
                    }
                } else if id == SectionID::ExportSection {
                    match spec_parse_export_section(s, body) {
                        Err(e) => Err(e),
                        Ok((exps, end)) => {
                            proof {
                                lemma_read_varint_bounds(s, pos + 1);
                                lemma_parse_export_section_bounds(s, body);
                            }
                            spec_parse_sections(s, end, ModuleV { exports: exps, ..acc1 })
                        },
                    }
                } else if id == SectionID::CodeSection {
                    match spec_parse_code_section(s, body) {
                        Err(e) => Err(e),
                        Ok((bodies, end)) => {
                            proof {
                                lemma_read_varint_bounds(s, pos + 1);
                                lemma_parse_code_section_bounds(s, body);
                            }
                            spec_parse_sections(s, end, ModuleV { codes: bodies, ..acc1 })
                        },
                    }
                } else {
                    Ok(ModuleV { trailing: s.subrange(body, s.len() as int), ..acc1 })
                }
            },
        }
    }
}

/// The whole module: the fixed magic marker, a 4-byte little-endian version
/// field (accepted as-is), then the section loop.
pub open spec fn spec_parse_wasm(s: Seq<u8>) -> Result<ModuleV, WasmError> {
    if s.len() < 4 {
        Err(WasmError::TruncatedInput)
    } else if s.subrange(0, 4) != magic_bytes() {
        Err(WasmError::BadMagic)
    } else if s.len() < 8 {
        Err(WasmError::TruncatedInput)
    } else {
        spec_parse_sections(s, 8, empty_module())
    }
}

// ---------------------------------------------------------------------------
// Laws.
// ---------------------------------------------------------------------------
/// Law: header rejection.  A buffer that does not open with the four magic
/// bytes fails before any section is examined: `BadMagic` when there are at
/// least four bytes to compare, `TruncatedInput` when there are not.
pub proof fn lemma_header_rejection(s: Seq<u8>)
    requires
        s.len() < 4 || s.subrange(0, 4) != magic_bytes(),
    ensures
        spec_parse_wasm(s) == Err::<ModuleV, WasmError>(
            if s.len() < 4 {
                WasmError::TruncatedInput
            } else {
                WasmError::BadMagic
            },
        ),
{
}

// ---------------------------------------------------------------------------
// Executable decoders.
// ---------------------------------------------------------------------------
/// Read `n` single-byte value-type codes.
#[verifier::loop_isolation(false)]
fn parse_valtypes(cur: &mut Cursor, n: u64) -> (r: Result<Vec<ValueType>, WasmError>)
    requires
        old(cur).wf(),
    ensures
        final(cur).wf(),
        final(cur).bytes@ == old(cur).bytes@,
        match r {
            Ok(ts) => spec_parse_valtypes(old(cur).bytes@, old(cur).pos as int, n as nat) == Ok::<
                (Seq<ValueType>, int),
                WasmError,
            >((ts@, final(cur).pos as int)),
            Err(e) => spec_parse_valtypes(old(cur).bytes@, old(cur).pos as int, n as nat) == Err::<
                (Seq<ValueType>, int),
                WasmError,
            >(e),
        },
{
    let ghost s = cur.bytes@;
    let mut ts: Vec<ValueType> = Vec::new();
    let mut i: u64 = 0;
    while i < n
        invariant
            cur.wf(),
            cur.bytes@ == s,
            i <= n,
            spec_parse_valtypes(s, old(cur).pos as int, n as nat) == (match spec_parse_valtypes(
                s,
                cur.pos as int,
                (n - i) as nat,
            ) {
                Ok(p) => Ok::<(Seq<ValueType>, int), WasmError>((ts@ + p.0, p.1)),
                Err(e) => Err::<(Seq<ValueType>, int), WasmError>(e),
            }),
        decreases n - i,
    {
        let ghost p0 = cur.pos as int;
        let ghost ts0 = ts@;
        let b = match cur.read_u8() {
            Ok(b) => b,
            Err(e) => { return Err(e) },
        };
        ts.push(ValueType::from_u8(b));
        i = i + 1;
        proof {
            match spec_parse_valtypes(s, cur.pos as int, (n - i) as nat) {
                Ok(p) => {
                    assert(ts@ + p.0 =~= ts0 + (seq![ValueType::spec_from_u8(s[p0])] + p.0));
                },
                Err(_) => {},
            }
        }
    }
    proof {
        assert(ts@ + Seq::<ValueType>::empty() =~= ts@);
    }
    Ok(ts)
}

/// Read one type-section entry: `Ok(None)` when the leading byte is not the
/// function-type tag and the section halts.
fn parse_sig_entry(cur: &mut Cursor) -> (r: Result<Option<FunctionSig>, WasmError>)
    requires
        old(cur).wf(),
    ensures
        final(cur).wf(),
        final(cur).bytes@ == old(cur).bytes@,
        match r {
            Ok(Some(f)) => spec_parse_sig_entry(old(cur).bytes@, old(cur).pos as int) == Ok::<
                (Option<FunctionSigV>, int),
                WasmError,
            >((Some(f@), final(cur).pos as int)),
            Ok(None) => spec_parse_sig_entry(old(cur).bytes@, old(cur).pos as int) == Ok::<
                (Option<FunctionSigV>, int),
                WasmError,
            >((None, final(cur).pos as int)),
            Err(e) => spec_parse_sig_entry(old(cur).bytes@, old(cur).pos as int) == Err::<
                (Option<FunctionSigV>, int),
                WasmError,
            >(e),
        },
{
    let tag = match cur.read_u8() {
        Ok(b) => b,
        Err(e) => { return Err(e) },
    };
    if tag != 0x60 {
        return Ok(None);
    }
    let nparams = match read_varint(cur) {
        Ok(v) => v,
        Err(e) => { return Err(e) },
    };
    let params = match parse_valtypes(cur, nparams) {
        Ok(ts) => ts,
        Err(e) => { return Err(e) },
    };
    let nreturns = match read_varint(cur) {
        Ok(v) => v,
        Err(e) => { return Err(e) },
    };
    let rets = match parse_valtypes(cur, nreturns) {
        Ok(ts) => ts,
        Err(e) => { return Err(e) },
    };
    Ok(Some(FunctionSig { params, returns: rets }))
}

impl CWasm {
    /// Decode the type section's content: a varint count of function-type
    /// entries, each a tagged pair of value-type vectors.  An entry whose
    /// tag byte is not `0x60` ends the section early with only the entries
    /// parsed before it.  The declared byte length is not consulted; the
    /// section trusts its own parsing to land on the boundary.
    pub fn parse_section_type(cur: &mut Cursor, size: u64) -> (r: Result<
        Vec<FunctionSig>,
        WasmError,
    >)
        requires
            old(cur).wf(),
        ensures
            final(cur).wf(),
            final(cur).bytes@ == old(cur).bytes@,
            match r {
                Ok(sigs) => spec_parse_type_section(old(cur).bytes@, old(cur).pos as int) == Ok::<
                    (Seq<FunctionSigV>, int),
                    WasmError,
                >((sigs@.map_values(|f: FunctionSig| f@), final(cur).pos as int)),
                Err(e) => spec_parse_type_section(old(cur).bytes@, old(cur).pos as int) == Err::<
                    (Seq<FunctionSigV>, int),
                    WasmError,
                >(e),
            },
    {
        let _ = size;
        let ghost s = cur.bytes@;
        let n = match read_varint(cur) {
            Ok(v) => v,
            Err(e) => { return Err(e) },
        };
        let mut sigs: Vec<FunctionSig> = Vec::new();
        let mut i: u64 = 0;
        let ghost start = cur.pos as int;
        while i < n
            invariant_except_break
                cur.wf(),
                cur.bytes@ == s,
                s == old(cur).bytes@,
                i <= n,
                spec_read_varint(s, old(cur).pos as int) == Ok::<(u64, int), WasmError>(
                    (n, start - old(cur).pos),
                ),
                spec_parse_sigs(s, start, n as nat) == (match spec_parse_sigs(
                    s,
                    cur.pos as int,
                    (n - i) as nat,
                ) {
                    Ok(p) => Ok::<(Seq<FunctionSigV>, int), WasmError>(
                        (sigs@.map_values(|f: FunctionSig| f@) + p.0, p.1),
                    ),
                    Err(e) => Err::<(Seq<FunctionSigV>, int), WasmError>(e),
                }),
            ensures
                cur.wf(),
                cur.bytes@ == s,
                s == old(cur).bytes@,
                spec_read_varint(s, old(cur).pos as int) == Ok::<(u64, int), WasmError>(
                    (n, start - old(cur).pos),
                ),
                spec_parse_sigs(s, start, n as nat) == Ok::<(Seq<FunctionSigV>, int), WasmError>(
                    (sigs@.map_values(|f: FunctionSig| f@), cur.pos as int),
                ),
            decreases n - i,
        {
            let ghost p0 = cur.pos as int;
            let ghost sigs0 = sigs@.map_values(|f: FunctionSig| f@);
            let entry = match parse_sig_entry(cur) {
                Ok(en) => en,
                Err(e) => { return Err(e) },
            };
            match entry {
                None => {
                    proof {
                        assert(sigs0 + Seq::<FunctionSigV>::empty() =~= sigs0);
                    }
                    break ;
                },
                Some(f) => {
                    let ghost fv = f@;
                    sigs.push(f);
                    i = i + 1;
                    proof {
                        assert(sigs@.map_values(|g: FunctionSig| g@) =~= sigs0.push(fv));
                        match spec_parse_sigs(s, cur.pos as int, (n - i) as nat) {
                            Ok(p) => {
                                assert(sigs0.push(fv) + p.0 =~= sigs0 + (seq![fv] + p.0));
                            },
                            Err(_) => {},
                        }
                    }
                },
            }
        }
        proof {
            if i >= n {
                assert(sigs@.map_values(|f: FunctionSig| f@) + Seq::<FunctionSigV>::empty()
                    =~= sigs@.map_values(|f: FunctionSig| f@));
            }
        }
        Ok(sigs)
    }
}

impl CWasm {
    /// Decode the function section's content: a varint count, then one
    /// varint type-index per defined function, each naming a position in
    /// the type section's output.  The declared byte length is not
    /// consulted.
    #[verifier::loop_isolation(false)]
    pub fn parse_section_function(cur: &mut Cursor, size: u64) -> (r: Result<Vec<u32>, WasmError>)
        requires
            old(cur).wf(),
        ensures
            final(cur).wf(),
            final(cur).bytes@ == old(cur).bytes@,
            match r {
                Ok(idxs) => spec_parse_function_section(old(cur).bytes@, old(cur).pos as int)
                    == Ok::<(Seq<u32>, int), WasmError>((idxs@, final(cur).pos as int)),
                Err(e) => spec_parse_function_section(old(cur).bytes@, old(cur).pos as int)
                    == Err::<(Seq<u32>, int), WasmError>(e),
            },
    {
        let _ = size;
        let ghost s = cur.bytes@;
        let n = match read_varint(cur) {
            Ok(v) => v,
            Err(e) => { return Err(e) },
        };
        let mut idxs: Vec<u32> = Vec::new();
        let mut i: u64 = 0;
        let ghost start = cur.pos as int;
        while i < n
            invariant
                cur.wf(),
                cur.bytes@ == s,
                i <= n,
                spec_parse_indices(s, start, n as nat) == (match spec_parse_indices(
                    s,
                    cur.pos as int,
                    (n - i) as nat,
                ) {
                    Ok(p) => Ok::<(Seq<u32>, int), WasmError>((idxs@ + p.0, p.1)),
                    Err(e) => Err::<(Seq<u32>, int), WasmError>(e),
                }),
            decreases n - i,
        {
            let ghost idxs0 = idxs@;
            let v = match read_varint(cur) {
                Ok(v) => v,
                Err(e) => { return Err(e) },
            };
            let idx: u32 = (v % 0x1_0000_0000) as u32;
            idxs.push(idx);
            i = i + 1;
            proof {
                match spec_parse_indices(s, cur.pos as int, (n - i) as nat) {
                    Ok(p) => {
                        assert(idxs@ + p.0 =~= idxs0 + (seq![idx] + p.0));
                    },
                    Err(_) => {},
                }
            }
        }
        proof {
            assert(idxs@ + Seq::<u32>::empty() =~= idxs@);
        }
        Ok(idxs)
    }

    /// Read a length-prefixed name: a varint byte length, that many bytes,
    /// decoded lossily to a string.
    pub fn read_str(cur: &mut Cursor) -> (r: Result<String, WasmError>)
        requires
            old(cur).wf(),
        ensures
            final(cur).wf(),
            final(cur).bytes@ == old(cur).bytes@,
            match r {
                Ok(name) => spec_read_str(old(cur).bytes@, old(cur).pos as int) == Ok::<
                    (Seq<char>, int),
                    WasmError,
                >((name@, final(cur).pos as int)),
                Err(e) => spec_read_str(old(cur).bytes@, old(cur).pos as int) == Err::<
                    (Seq<char>, int),
                    WasmError,
                >(e),
            },
    {
        let len = match read_varint(cur) {
            Ok(v) => v,
            Err(e) => { return Err(e) },
        };
        let rem = cur.remaining();
        if len > rem as u64 {
            return Err(WasmError::TruncatedInput);
        }
        let buf = match cur.read_exact(len as usize) {
            Ok(b) => b,
            Err(_) => {
                proof {
                    assert(false);
                }
                return Err(WasmError::TruncatedInput);
            },
        };
        Ok(utf8_lossy_decode(&buf))
    }
}

/// Read one export entry: a length-prefixed name, a kind byte, and a varint
/// index reduced to 32 bits.
fn parse_export_entry(cur: &mut Cursor) -> (r: Result<Export, WasmError>)
    requires
        old(cur).wf(),
    ensures
        final(cur).wf(),
        final(cur).bytes@ == old(cur).bytes@,
        match r {
            Ok(exp) => spec_parse_export_entry(old(cur).bytes@, old(cur).pos as int) == Ok::<
                (ExportV, int),
                WasmError,
            >((exp@, final(cur).pos as int)),
            Err(e) => spec_parse_export_entry(old(cur).bytes@, old(cur).pos as int) == Err::<
                (ExportV, int),
                WasmError,
            >(e),
        },
{
    let name = match CWasm::read_str(cur) {
        Ok(nm) => nm,
        Err(e) => { return Err(e) },
    };
    let desc_b = match cur.read_u8() {
        Ok(b) => b,
        Err(e) => { return Err(e) },
    };
    let desc = ExportDesc::from_u8(desc_b);
    let vraw = match read_varint(cur) {
        Ok(v) => v,
        Err(e) => { return Err(e) },
    };
    let idx: u32 = (vraw % 0x1_0000_0000) as u32;
    Ok(Export { name, desc, idx })
}

impl CWasm {
    /// Decode the export section's content: a varint entry count, then that
    /// many export entries, order preserved.  Names need not be unique; an
    /// unknown kind byte yields `InvalidIdx` rather than an error.
    #[verifier::loop_isolation(false)]
    pub fn parse_section_export(cur: &mut Cursor, size: u64) -> (r: Result<Vec<Export>, WasmError>)
        requires
            old(cur).wf(),
        ensures
            final(cur).wf(),
            final(cur).bytes@ == old(cur).bytes@,
            match r {
                Ok(exps) => spec_parse_export_section(old(cur).bytes@, old(cur).pos as int)
                    == Ok::<(Seq<ExportV>, int), WasmError>(
                    (exps@.map_values(|e: Export| e@), final(cur).pos as int),
                ),
                Err(e) => spec_parse_export_section(old(cur).bytes@, old(cur).pos as int) == Err::<
                    (Seq<ExportV>, int),
                    WasmError,
                >(e),
            },
    {
        let _ = size;
        let ghost s = cur.bytes@;
        let n = match read_varint(cur) {
            Ok(v) => v,
            Err(e) => { return Err(e) },
        };
        let mut exps: Vec<Export> = Vec::new();
        let mut i: u64 = 0;
        let ghost start = cur.pos as int;
        while i < n
            invariant
                cur.wf(),
                cur.bytes@ == s,
                i <= n,
                spec_parse_exports(s, start, n as nat) == (match spec_parse_exports(
                    s,
                    cur.pos as int,
                    (n - i) as nat,
                ) {
                    Ok(p) => Ok::<(Seq<ExportV>, int), WasmError>(
                        (exps@.map_values(|e: Export| e@) + p.0, p.1),
                    ),
                    Err(e) => Err::<(Seq<ExportV>, int), WasmError>(e),
                }),
            decreases n - i,
        {
            let ghost exps0 = exps@.map_values(|e: Export| e@);
            let exp = match parse_export_entry(cur) {
                Ok(ex) => ex,
                Err(e) => { return Err(e) },
            };
            let ghost ev = exp@;
            exps.push(exp);
            i = i + 1;
            proof {
                assert(exps@.map_values(|e: Export| e@) =~= exps0.push(ev));
                match spec_parse_exports(s, cur.pos as int, (n - i) as nat) {
                    Ok(p) => {
                        assert(exps0.push(ev) + p.0 =~= exps0 + (seq![ev] + p.0));
                    },
                    Err(_) => {},
                }
            }
        }
        proof {
            assert(exps@.map_values(|e: Export| e@) + Seq::<ExportV>::empty() =~= exps@.map_values(
                |e: Export| e@,
            ));
        }
        Ok(exps)
    }

    /// Decode the code section's content: a varint body count, then one
    /// length-prefixed raw byte sequence per function body, kept verbatim.
    /// Instruction-level decoding is deferred entirely to the interpreter.
    #[verifier::loop_isolation(false)]
    pub fn parse_section_code(cur: &mut Cursor, size: u64) -> (r: Result<Vec<Vec<u8>>, WasmError>)
        requires
            old(cur).wf(),
        ensures
            final(cur).wf(),
            final(cur).bytes@ == old(cur).bytes@,
            match r {
                Ok(bodies) => spec_parse_code_section(old(cur).bytes@, old(cur).pos as int) == Ok::<
                    (Seq<Seq<u8>>, int),
                    WasmError,
                >((bodies@.map_values(|c: Vec<u8>| c@), final(cur).pos as int)),
                Err(e) => spec_parse_code_section(old(cur).bytes@, old(cur).pos as int) == Err::<
                    (Seq<Seq<u8>>, int),
                    WasmError,
                >(e),
            },
    {
        let _ = size;
        let ghost s = cur.bytes@;
        let n = match read_varint(cur) {
            Ok(v) => v,
            Err(e) => { return Err(e) },
        };
        let mut bodies: Vec<Vec<u8>> = Vec::new();
        let mut i: u64 = 0;
        let ghost start = cur.pos as int;
        while i < n
            invariant
                cur.wf(),
                cur.bytes@ == s,
                i <= n,
                spec_parse_codes(s, start, n as nat) == (match spec_parse_codes(
                    s,
                    cur.pos as int,
                    (n - i) as nat,
                ) {
                    Ok(p) => Ok::<(Seq<Seq<u8>>, int), WasmError>(
                        (bodies@.map_values(|c: Vec<u8>| c@) + p.0, p.1),
                    ),
                    Err(e) => Err::<(Seq<Seq<u8>>, int), WasmError>(e),
                }),
            decreases n - i,
        {
            let ghost bodies0 = bodies@.map_values(|c: Vec<u8>| c@);
            let sz = match read_varint(cur) {
                Ok(v) => v,
                Err(e) => { return Err(e) },
            };
            let rem = cur.remaining();
            if sz > rem as u64 {
                return Err(WasmError::TruncatedInput);
            }
            let body = match cur.read_exact(sz as usize) {
                Ok(b) => b,
                Err(_) => {
                    proof {
                        assert(false);
                    }
                    return Err(WasmError::TruncatedInput);
                },
            };
            let ghost bv = body@;
            bodies.push(body);
            i = i + 1;
            proof {
                assert(bodies@.map_values(|c: Vec<u8>| c@) =~= bodies0.push(bv));
                match spec_parse_codes(s, cur.pos as int, (n - i) as nat) {
                    Ok(p) => {
                        assert(bodies0.push(bv) + p.0 =~= bodies0 + (seq![bv] + p.0));
                    },
                    Err(_) => {},
                }
            }
        }
        proof {
            assert(bodies@.map_values(|c: Vec<u8>| c@) + Seq::<Seq<u8>>::empty()
                =~= bodies@.map_values(|c: Vec<u8>| c@));
        }
        Ok(bodies)
    }
}

impl CWasm {
    /// Decode a whole module from a fully-read byte buffer.
    ///
    /// The first four bytes must be the fixed magic marker; the next four
    /// are a little-endian version field, accepted as-is.  Then sections
    /// are read in turn: one id byte, a varint content length, and the
    /// section's content.  A section without a decoder here (including an
    /// unassigned id) halts the loop, and whatever follows is captured as
    /// trailing bytes for diagnostics, so the module comes back partially
    /// decoded rather than failing.
    #[verifier::rlimit(60)]
    pub fn parse_wasm(binfile: &Vec<u8>) -> (r: Result<CWasm, WasmError>)
        ensures
            match r {
                Ok(m) => spec_parse_wasm(binfile@) == Ok::<ModuleV, WasmError>(m@),
                Err(e) => spec_parse_wasm(binfile@) == Err::<ModuleV, WasmError>(e),
            },
    {
        let ghost s = binfile@;
        let mut cur = Cursor::new(clone_bytes(binfile));
        let magic = match cur.read_exact(4) {
            Ok(m) => m,
            Err(e) => { return Err(e) },
        };
        if !(magic[0] == 0x00 && magic[1] == 0x61 && magic[2] == 0x73 && magic[3] == 0x6D) {
            proof {
                if s.subrange(0, 4) == magic_bytes() {
                    assert(magic@[0] == magic_bytes()[0]);
                    assert(magic@[1] == magic_bytes()[1]);
                    assert(magic@[2] == magic_bytes()[2]);
                    assert(magic@[3] == magic_bytes()[3]);
                }
            }
            return Err(WasmError::BadMagic);
        }
        proof {
            assert(s.subrange(0, 4) =~= magic_bytes());
        }
        let _version = match cur.read_u32_le() {
            Ok(v) => v,
            Err(e) => { return Err(e) },
        };
        let mut functionsigs: Vec<FunctionSig> = Vec::new();
        let mut functions: Vec<u32> = Vec::new();
        let mut exports: Vec<Export> = Vec::new();
        let mut codes: Vec<Vec<u8>> = Vec::new();
        let mut sections: Vec<SectionID> = Vec::new();
        let ghost goal = spec_parse_sections(s, 8, empty_module());
        proof {
            assert(functionsigs@.map_values(|f: FunctionSig| f@) =~= Seq::<FunctionSigV>::empty());
            assert(exports@.map_values(|e: Export| e@) =~= Seq::<ExportV>::empty());
            assert(codes@.map_values(|c: Vec<u8>| c@) =~= Seq::<Seq<u8>>::empty());
        }
        while cur.pos < cur.bytes.len()
            invariant_except_break
                cur.wf(),
                cur.bytes@ == s,
                s == binfile@,
                s.len() >= 8,
                s.subrange(0, 4) == magic_bytes(),
                goal == spec_parse_sections(s, 8, empty_module()),
                goal == spec_parse_sections(
                    s,
                    cur.pos as int,
                    (ModuleV {
                        functionsigs: functionsigs@.map_values(|f: FunctionSig| f@),
                        functions: functions@,
                        exports: exports@.map_values(|e: Export| e@),
                        codes: codes@.map_values(|c: Vec<u8>| c@),
                        sections: sections@,
                        trailing: Seq::empty(),
                    }),
                ),
            ensures
                cur.wf(),
                cur.bytes@ == s,
                s == binfile@,
                s.len() >= 8,
                s.subrange(0, 4) == magic_bytes(),
                goal == spec_parse_sections(s, 8, empty_module()),
                goal == Ok::<ModuleV, WasmError>(
                    (ModuleV {
                        functionsigs: functionsigs@.map_values(|f: FunctionSig| f@),
                        functions: functions@,
                        exports: exports@.map_values(|e: Export| e@),
                        codes: codes@.map_values(|c: Vec<u8>| c@),
                        sections: sections@,
                        trailing: s.subrange(cur.pos as int, s.len() as int),
                    }),
                ) || (cur.pos == s.len() && goal == Ok::<ModuleV, WasmError>(
                    (ModuleV {
                        functionsigs: functionsigs@.map_values(|f: FunctionSig| f@),
                        functions: functions@,
                        exports: exports@.map_values(|e: Export| e@),
                        codes: codes@.map_values(|c: Vec<u8>| c@),
                        sections: sections@,
                        trailing: Seq::empty(),
                    }),
                )),
            decreases s.len() - cur.pos,
        {
            let ghost pos_it = cur.pos as int;
            let ghost acc_it = (ModuleV {
                functionsigs: functionsigs@.map_values(|f: FunctionSig| f@),
                functions: functions@,
                exports: exports@.map_values(|e: Export| e@),
                codes: codes@.map_values(|c: Vec<u8>| c@),
                sections: sections@,
                trailing: Seq::empty(),
            });
            let id_byte = match cur.read_u8() {
                Ok(b) => b,
                Err(e) => {
                    proof {
                        assert(false);
                    }
                    return Err(e);
                },
            };
            let id = SectionID::from_u8(id_byte);
            sections.push(id);
            let ghost acc1 = (ModuleV { sections: acc_it.sections.push(id), ..acc_it });
            let section_size = match read_varint(&mut cur) {
                Ok(v) => v,
                Err(e) => { return Err(e) },
            };
            let ghost body = cur.pos as int;
            match id {
                SectionID::TypeSection => {
                    match CWasm::parse_section_type(&mut cur, section_size) {
                        Ok(v) => { functionsigs = v },
                        Err(e) => { return Err(e) },
                    }
                    proof {
                        lemma_read_varint_bounds(s, pos_it + 1);
                        lemma_parse_type_section_bounds(s, body);
                        assert(goal == spec_parse_sections(
                            s,
                            cur.pos as int,
                            (ModuleV {
                                functionsigs: functionsigs@.map_values(|f: FunctionSig| f@),
                                ..acc1
                            }),
                        ));
                    }
                },
                SectionID::FunctionSection => {
                    match CWasm::parse_section_function(&mut cur, section_size) {
                        Ok(v) => { functions = v },
                        Err(e) => { return Err(e) },
                    }
                    proof {
                        lemma_read_varint_bounds(s, pos_it + 1);
                        lemma_parse_function_section_bounds(s, body);
                        assert(goal == spec_parse_sections(
                            s,
                            cur.pos as int,
                            (ModuleV { functions: functions@, ..acc1 }),
                        ));
                    }
                },
                SectionID::ExportSection => {
                    match CWasm::parse_section_export(&mut cur, section_size) {
                        Ok(v) => { exports = v },
                        Err(e) => { return Err(e) },
                    }
                    proof {
                        lemma_read_varint_bounds(s, pos_it + 1);
                        lemma_parse_export_section_bounds(s, body);
                        assert(goal == spec_parse_sections(
                            s,
                            cur.pos as int,
                            (ModuleV { exports: exports@.map_values(|e: Export| e@), ..acc1 }),
                        ));
                    }
                },
                SectionID::CodeSection => {
                    match CWasm::parse_section_code(&mut cur, section_size) {
                        Ok(v) => { codes = v },
                        Err(e) => { return Err(e) },
                    }
                    proof {
                        lemma_read_varint_bounds(s, pos_it + 1);
                        lemma_parse_code_section_bounds(s, body);
                        assert(goal == spec_parse_sections(
                            s,
                            cur.pos as int,
                            (ModuleV { codes: codes@.map_values(|c: Vec<u8>| c@), ..acc1 }),
                        ));
                    }
                },
                _ => {
                    // no decoder for this section kind: halt the loop and
                    // leave the rest of the buffer as trailing bytes
                    proof {
                        lemma_read_varint_bounds(s, pos_it + 1);
                        assert(goal == Ok::<ModuleV, WasmError>(
                            (ModuleV {
                                trailing: s.subrange(cur.pos as int, s.len() as int),
                                ..acc1
                            }),
                        ));
                    }
                    break ;
                },
            }
        }
        proof {
            assert(s.subrange(s.len() as int, s.len() as int) =~= Seq::<u8>::empty());
        }
        let trailing = cur.read_to_end();
        let m = CWasm { functionsigs, functions, exports, codes, sections, trailing };
        Ok(m)
    }

    /// Executing a whole module is not part of this core: the interpreter
    /// runs one selected function body (`VM::run`).  This stub leaves the
    /// module untouched.
    pub fn run(&mut self)
        ensures
            *final(self) == *old(self),
    {
    }
}

/// Law: type-section tag rejection.  When the next entry's leading byte is
/// not the function-type tag `0x60`, the section's remaining entries are
/// abandoned without an error: nothing more is produced, and exactly the one
/// offending byte is consumed.
pub proof fn lemma_type_section_tag_halts(s: Seq<u8>, pos: int, n: nat)
    requires
        0 <= pos < s.len(),
        n > 0,
        s[pos] != 0x60,
    ensures
        spec_parse_sigs(s, pos, n) == Ok::<(Seq<FunctionSigV>, int), WasmError>(
            (Seq::empty(), pos + 1),
        ),
{
}

} // verus!

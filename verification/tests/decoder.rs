use cwasm::cursor::Cursor;
use cwasm::decoder::CWasm;
use cwasm::error::WasmError;
use cwasm::types::{ExportDesc, SectionID, ValueType};

#[test]
fn header_rejection_bad_magic() {
    // any first-four-byte mismatch fails with BadMagic before any section
    let r = CWasm::parse_wasm(&vec![0x01, 0x61, 0x73, 0x6D, 1, 0, 0, 0]);
    assert_eq!(r.err(), Some(WasmError::BadMagic));
    let r2 = CWasm::parse_wasm(&vec![0xFF, 0xFF, 0xFF, 0xFF]);
    assert_eq!(r2.err(), Some(WasmError::BadMagic));
}

#[test]
fn header_rejection_short_buffer() {
    let r = CWasm::parse_wasm(&vec![0x00, 0x61, 0x73]);
    assert_eq!(r.err(), Some(WasmError::TruncatedInput));
    // magic alone, version missing
    let r2 = CWasm::parse_wasm(&vec![0x00, 0x61, 0x73, 0x6D, 1, 0]);
    assert_eq!(r2.err(), Some(WasmError::TruncatedInput));
}

#[test]
fn empty_module_decodes() {
    let m = CWasm::parse_wasm(&vec![0x00, 0x61, 0x73, 0x6D, 1, 0, 0, 0]).unwrap();
    assert_eq!(m.functionsigs.len(), 0);
    assert_eq!(m.functions.len(), 0);
    assert_eq!(m.exports.len(), 0);
    assert_eq!(m.codes.len(), 0);
    assert_eq!(m.sections.len(), 0);
    assert_eq!(m.trailing.len(), 0);
}

#[test]
fn code_section_two_known_bodies() {
    // a synthetic code section: 2 bodies with known lengths and bytes
    let section = vec![
        0x02, // body count
        0x03, 0x00, 0x20, 0x00, // body 0: 3 bytes
        0x05, 0x01, 0x20, 0x00, 0x21, 0x00, // body 1: 5 bytes
    ];
    let mut cur = Cursor::new(section);
    let bodies = CWasm::parse_section_code(&mut cur, 11).unwrap();
    assert_eq!(bodies.len(), 2);
    assert_eq!(bodies[0], vec![0x00, 0x20, 0x00]);
    assert_eq!(bodies[1], vec![0x01, 0x20, 0x00, 0x21, 0x00]);
    // every byte between section start and declared end is accounted for:
    // 1 count byte + (1 length prefix + 3) + (1 length prefix + 5) = 11
    assert_eq!(cur.pos, 11);
}

#[test]
fn code_section_truncated_body() {
    let mut cur = Cursor::new(vec![0x01, 0x05, 0xAA, 0xBB]);
    let r = CWasm::parse_section_code(&mut cur, 4);
    assert_eq!(r.err(), Some(WasmError::TruncatedInput));
}

#[test]
fn type_section_parses_signatures() {
    // one entry: (i32, i64) -> (f64)
    let section = vec![0x01, 0x60, 0x02, 0x7F, 0x7E, 0x01, 0x7C];
    let mut cur = Cursor::new(section);
    let sigs = CWasm::parse_section_type(&mut cur, 7).unwrap();
    assert_eq!(sigs.len(), 1);
    assert_eq!(sigs[0].params, vec![ValueType::I32, ValueType::I64]);
    assert_eq!(sigs[0].returns, vec![ValueType::F64]);
}

#[test]
fn type_section_unknown_value_type_byte_is_invalid() {
    // an unrecognized value-type byte is recorded, not fatal, keeping the
    // surrounding vector's positions intact
    let section = vec![0x01, 0x60, 0x03, 0x7F, 0x55, 0x7E, 0x00];
    let mut cur = Cursor::new(section);
    let sigs = CWasm::parse_section_type(&mut cur, 7).unwrap();
    assert_eq!(sigs.len(), 1);
    assert_eq!(
        sigs[0].params,
        vec![ValueType::I32, ValueType::Invalid, ValueType::I64]
    );
}

#[test]
fn type_section_bad_tag_halts_with_entries_before_it() {
    // two declared entries; the second's tag is not 0x60, so only the
    // first is produced and parsing stops without an error
    let section = vec![
        0x02, // entry count
        0x60, 0x01, 0x7F, 0x01, 0x7E, // entry 0: (i32) -> (i64)
        0x61, 0x01, 0x7F, 0x00, // entry 1: bad tag
    ];
    let mut cur = Cursor::new(section);
    let sigs = CWasm::parse_section_type(&mut cur, 10).unwrap();
    assert_eq!(sigs.len(), 1);
    assert_eq!(sigs[0].params, vec![ValueType::I32]);
    assert_eq!(sigs[0].returns, vec![ValueType::I64]);
    // exactly the offending tag byte was consumed
    assert_eq!(cur.pos, 7);
}

#[test]
fn type_section_bad_tag_first_entry_yields_nothing() {
    let mut cur = Cursor::new(vec![0x03, 0x55, 0x60, 0x00, 0x00]);
    let sigs = CWasm::parse_section_type(&mut cur, 5).unwrap();
    assert_eq!(sigs.len(), 0);
    assert_eq!(cur.pos, 2);
}

#[test]
fn function_section_indices() {
    let mut cur = Cursor::new(vec![0x03, 0x00, 0x01, 0x01]);
    let idxs = CWasm::parse_section_function(&mut cur, 4).unwrap();
    assert_eq!(idxs, vec![0u32, 1, 1]);
}

#[test]
fn export_section_round_trip() {
    // entries [("main", Function, 0), ("memory", Memory, 0)]
    let section = vec![
        0x02, // entry count
        0x04, b'm', b'a', b'i', b'n', 0x00, 0x00, // "main", kind 0, idx 0
        0x06, b'm', b'e', b'm', b'o', b'r', b'y', 0x02, 0x00, // "memory", kind 2, idx 0
    ];
    let mut cur = Cursor::new(section);
    let exports = CWasm::parse_section_export(&mut cur, 17).unwrap();
    assert_eq!(exports.len(), 2);
    assert_eq!(exports[0].name, "main");
    assert_eq!(exports[0].desc, ExportDesc::FuncIdx);
    assert_eq!(exports[0].idx, 0);
    assert_eq!(exports[1].name, "memory");
    assert_eq!(exports[1].desc, ExportDesc::MemIdx);
    assert_eq!(exports[1].idx, 0);
}

#[test]
fn export_kind_bytes_zero_to_three_are_never_invalid() {
    assert_eq!(ExportDesc::from_u8(0), ExportDesc::FuncIdx);
    assert_eq!(ExportDesc::from_u8(1), ExportDesc::TableIdx);
    assert_eq!(ExportDesc::from_u8(2), ExportDesc::MemIdx);
    assert_eq!(ExportDesc::from_u8(3), ExportDesc::GlobalIdx);
    assert_eq!(ExportDesc::from_u8(4), ExportDesc::InvalidIdx);
    assert_eq!(ExportDesc::from_u8(0xFF), ExportDesc::InvalidIdx);
}

#[test]
fn read_str_decodes_utf8() {
    let mut cur = Cursor::new(vec![0x03, 0x61, 0x62, 0x63, 0x99]);
    let s = CWasm::read_str(&mut cur).unwrap();
    assert_eq!(s, "abc");
    assert_eq!(cur.pos, 4);
}

#[test]
fn read_str_malformed_utf8_is_replaced_not_fatal() {
    // 0xFF can never appear in UTF-8; lossy decoding substitutes it
    let mut cur = Cursor::new(vec![0x03, 0xFF, b'o', b'k']);
    let s = CWasm::read_str(&mut cur).unwrap();
    assert_eq!(s, "\u{FFFD}ok");
}

#[test]
fn read_str_truncated() {
    let mut cur = Cursor::new(vec![0x05, b'a', b'b']);
    let r = CWasm::read_str(&mut cur);
    assert_eq!(r.err(), Some(WasmError::TruncatedInput));
}

#[test]
fn section_id_mapping() {
    assert_eq!(SectionID::from_u8(0), SectionID::CustomSection);
    assert_eq!(SectionID::from_u8(1), SectionID::TypeSection);
    assert_eq!(SectionID::from_u8(3), SectionID::FunctionSection);
    assert_eq!(SectionID::from_u8(7), SectionID::ExportSection);
    assert_eq!(SectionID::from_u8(0xA), SectionID::CodeSection);
    assert_eq!(SectionID::from_u8(0xB), SectionID::DataSection);
    assert_eq!(SectionID::from_u8(0xC), SectionID::InvalidSection);
    assert_eq!(SectionID::from_u8(0xFF), SectionID::InvalidSection);
}

#[test]
fn whole_module_with_all_four_sections() {
    let mut module = vec![0x00, 0x61, 0x73, 0x6D, 0x01, 0x00, 0x00, 0x00];
    // type section: one signature () -> (i32)
    module.extend_from_slice(&[0x01, 0x05, 0x01, 0x60, 0x00, 0x01, 0x7F]);
    // function section: one function using type 0
    module.extend_from_slice(&[0x03, 0x02, 0x01, 0x00]);
    // export section: "main" as function 0
    module.extend_from_slice(&[0x07, 0x08, 0x01, 0x04, b'm', b'a', b'i', b'n', 0x00, 0x00]);
    // code section: one body [locals 0, global.get 0]
    module.extend_from_slice(&[0x0A, 0x05, 0x01, 0x03, 0x00, 0x23, 0x00]);
    let m = CWasm::parse_wasm(&module).unwrap();
    assert_eq!(
        m.sections,
        vec![
            SectionID::TypeSection,
            SectionID::FunctionSection,
            SectionID::ExportSection,
            SectionID::CodeSection,
        ]
    );
    assert_eq!(m.functionsigs.len(), 1);
    assert_eq!(m.functionsigs[0].params.len(), 0);
    assert_eq!(m.functionsigs[0].returns, vec![ValueType::I32]);
    assert_eq!(m.functions, vec![0u32]);
    assert_eq!(m.exports.len(), 1);
    assert_eq!(m.exports[0].name, "main");
    assert_eq!(m.codes, vec![vec![0x00, 0x23, 0x00]]);
    assert_eq!(m.trailing.len(), 0);
}

#[test]
fn unknown_section_halts_and_captures_trailing() {
    let mut module = vec![0x00, 0x61, 0x73, 0x6D, 0x01, 0x00, 0x00, 0x00];
    // import section (id 2) has no decoder: the loop halts there
    module.extend_from_slice(&[0x02, 0x03, 0xAA, 0xBB, 0xCC]);
    // a type section after it is never reached
    module.extend_from_slice(&[0x01, 0x01, 0x00]);
    let m = CWasm::parse_wasm(&module).unwrap();
    assert_eq!(m.sections, vec![SectionID::ImportSection]);
    assert_eq!(m.functionsigs.len(), 0);
    assert_eq!(m.trailing, vec![0xAA, 0xBB, 0xCC, 0x01, 0x01, 0x00]);
}

#[test]
fn truncated_section_size_fails() {
    // id byte present, varint size has its continuation bit set and ends
    let module = vec![0x00, 0x61, 0x73, 0x6D, 0x01, 0x00, 0x00, 0x00, 0x01, 0x80];
    let r = CWasm::parse_wasm(&module);
    assert_eq!(r.err(), Some(WasmError::TruncatedInput));
}

#[test]
fn truncated_type_section_content_fails() {
    // the type section claims one entry, but its bytes are missing
    let module = vec![0x00, 0x61, 0x73, 0x6D, 0x01, 0x00, 0x00, 0x00, 0x01, 0x02, 0x01];
    assert_eq!(
        CWasm::parse_wasm(&module).err(),
        Some(WasmError::TruncatedInput)
    );
}

#[test]
fn malformed_varint_section_size_fails() {
    // a section size of ten continuation bytes exceeds the varint cap
    let mut module = vec![0x00, 0x61, 0x73, 0x6D, 0x01, 0x00, 0x00, 0x00, 0x01];
    module.extend_from_slice(&[0x80; 10]);
    assert_eq!(
        CWasm::parse_wasm(&module).err(),
        Some(WasmError::MalformedVarint)
    );
}

#[test]
fn value_type_mapping() {
    assert_eq!(ValueType::from_u8(0x7C), ValueType::F64);
    assert_eq!(ValueType::from_u8(0x7D), ValueType::F32);
    assert_eq!(ValueType::from_u8(0x7E), ValueType::I64);
    assert_eq!(ValueType::from_u8(0x7F), ValueType::I32);
    assert_eq!(ValueType::from_u8(0x00), ValueType::Invalid);
    assert_eq!(ValueType::from_u8(0x60), ValueType::Invalid);
}

use cwasm::cursor::Cursor;
use cwasm::error::WasmError;
use cwasm::varint::{encode_varint, read_varint};

fn decode(bytes: Vec<u8>) -> (Result<u64, WasmError>, usize) {
    let mut cur = Cursor::new(bytes);
    let r = read_varint(&mut cur);
    (r, cur.pos)
}

#[test]
fn varint_round_trip_small_values() {
    for v in [0u64, 1, 2, 63, 64, 127] {
        let enc = encode_varint(v);
        assert_eq!(enc.len(), 1);
        let (r, consumed) = decode(enc);
        assert_eq!(r, Ok(v));
        assert_eq!(consumed, 1);
    }
}

#[test]
fn varint_round_trip_multi_byte_values() {
    for v in [
        128u64,
        300,
        624485,
        0xFFFF_FFFF,
        0x1_0000_0000,
        u64::MAX - 1,
        u64::MAX,
    ] {
        let enc = encode_varint(v);
        let n = enc.len();
        assert!(n >= 2 && n <= 10);
        let (r, consumed) = decode(enc);
        assert_eq!(r, Ok(v));
        assert_eq!(consumed, n);
    }
}

#[test]
fn varint_known_encodings() {
    assert_eq!(encode_varint(0), vec![0x00]);
    assert_eq!(encode_varint(127), vec![0x7F]);
    assert_eq!(encode_varint(128), vec![0x80, 0x01]);
    assert_eq!(encode_varint(300), vec![0xAC, 0x02]);
    assert_eq!(encode_varint(624485), vec![0xE5, 0x8E, 0x26]);
    assert_eq!(encode_varint(u64::MAX).len(), 10);
}

#[test]
fn varint_decode_ignores_trailing_bytes() {
    let (r, consumed) = decode(vec![0xAC, 0x02, 0x60, 0x7F]);
    assert_eq!(r, Ok(300));
    assert_eq!(consumed, 2);
}

#[test]
fn varint_truncated_input() {
    // every byte has the continuation bit set and the buffer is short
    let (r, consumed) = decode(vec![0x80, 0x80]);
    assert_eq!(r, Err(WasmError::TruncatedInput));
    assert_eq!(consumed, 0);
    let (r2, _) = decode(vec![]);
    assert_eq!(r2, Err(WasmError::TruncatedInput));
}

#[test]
fn varint_malformed_beyond_ten_bytes() {
    // ten continuation bytes exceed the cap whether or not more follow
    let (r, _) = decode(vec![0x80; 10]);
    assert_eq!(r, Err(WasmError::MalformedVarint));
    let mut bytes = vec![0x80; 10];
    bytes.push(0x01);
    let (r2, _) = decode(bytes);
    assert_eq!(r2, Err(WasmError::MalformedVarint));
}

//! Lossy UTF-8 decoding of export names.
//!
//! Malformed byte sequences are replaced, never fatal: an export whose name
//! is not valid UTF-8 still lists, with replacement characters where the
//! bad bytes were.

use vstd::prelude::*;

verus! {

/// The characters that lossy UTF-8 decoding yields for a byte sequence.
/// The result depends on the bytes alone.
pub uninterp spec fn utf8_lossy(bytes: Seq<u8>) -> Seq<char>;

/// Relies on `String::from_utf8_lossy`: valid UTF-8 decodes unchanged, so a
/// sequence of bytes below 0x80 (each its own ASCII scalar) decodes to the
/// characters with those codes; malformed sequences are substituted, and the
/// result is a function of the bytes alone.
#[verifier::external_body]
pub fn utf8_lossy_decode(bytes: &Vec<u8>) -> (r: String)
    ensures
        r@ == utf8_lossy(bytes@),
        (forall|i: int| 0 <= i < bytes@.len() ==> bytes@[i] < 0x80) ==> r@ == bytes@.map_values(
            |b: u8| b as char,
        ),
{
    String::from_utf8_lossy(bytes.as_slice()).into_owned()
}

} // verus!

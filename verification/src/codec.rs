//! Textual encodings of the value kinds the document cannot carry as
//! numbers: binary blobs, globally-unique identifiers and fixed-point
//! decimals.

use vstd::prelude::*;

verus! {

/// The Base64 text of a byte sequence, as the encoding crate produces it
/// (standard alphabet, with padding).
pub uninterp spec fn base64_text(bytes: Seq<u8>) -> Seq<char>;

/// Relies on base64::encode: the standard-alphabet, padded encoding, four
/// output characters for every started group of three input bytes.
#[verifier::external_body]
pub(crate) fn base64_string(bytes: &Vec<u8>) -> (r: String)
    ensures
        r@ == base64_text(bytes@),
        r@.len() == 4 * ((bytes@.len() + 2) / 3),
{
    base64::encode(bytes)
}

/// The lower-case hexadecimal digit character for `d` (0 to 15).
pub open spec fn hex_char(d: int) -> char {
    if d < 10 {
        crate::render::digit_char(d)
    } else if d == 10 {
        'a'
    } else if d == 11 {
        'b'
    } else if d == 12 {
        'c'
    } else if d == 13 {
        'd'
    } else if d == 14 {
        'e'
    } else {
        'f'
    }
}

/// The two lower-case hexadecimal digits of one byte.
pub open spec fn hex_pair(b: u8) -> Seq<char> {
    seq![hex_char(b as int / 16), hex_char(b as int % 16)]
}

/// The lower-case hexadecimal rendering of a byte sequence.
pub open spec fn hex_run(s: Seq<u8>) -> Seq<char>
    decreases s.len(),
{
    if s.len() == 0 {
        Seq::<char>::empty()
    } else {
        hex_pair(s.first()) + hex_run(s.drop_first())
    }
}

/// The hyphenated rendering of a globally-unique identifier: the sixteen
/// bytes in order as lower-case hex, in groups of 4, 2, 2, 2 and 6 bytes.
pub open spec fn guid_text(b: Seq<u8>) -> Seq<char> {
    hex_run(b.subrange(0, 4)) + seq!['-'] + hex_run(b.subrange(4, 6)) + seq!['-'] + hex_run(
        b.subrange(6, 8),
    ) + seq!['-'] + hex_run(b.subrange(8, 10)) + seq!['-'] + hex_run(b.subrange(10, 16))
}

/// Relies on uuid::Uuid::from_bytes and its Display: the hyphenated
/// lower-case hexadecimal form of the sixteen bytes in order.
#[verifier::external_body]
pub(crate) fn guid_string(bytes: &[u8; 16]) -> (r: String)
    ensures
        r@ == guid_text(bytes@),
{
    uuid::Uuid::from_bytes(*bytes).to_string()
}

/// The text of a fixed-point decimal with the given unscaled value and
/// scale, as the database client crate renders it.
pub uninterp spec fn numeric_text(value: i128, scale: u8) -> Seq<char>;

/// Relies on tiberius::numeric::Numeric::new_with_scale (which accepts any
/// scale up to 37) and its Display: the integer part, a decimal point, and
/// the decimal part zero-padded to the scale.
#[verifier::external_body]
pub(crate) fn numeric_string(value: i128, scale: u8) -> (r: String)
    requires
        scale <= 37,
    ensures
        r@ == numeric_text(value, scale),
{
    tiberius::numeric::Numeric::new_with_scale(value, scale).to_string()
}

} // verus!

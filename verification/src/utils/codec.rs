//! Text encodings of bytes: hexadecimal, base32 and base64.
//!
//! The encodings are done by the crates `hex`, `base32` and `base64`. What
//! this file says of them is taken on trust.

use crate::utils::is_alphanumeric;
use crate::utils::text::is_ascii_bytes;
use vstd::prelude::*;
use vstd::utf8::encode_utf8;

verus! {

/// The upper case hexadecimal digit for a number below 16.
pub open spec fn hex_digit_upper(n: int) -> u8 {
    if n < 10 {
        (0x30 + n) as u8
    } else {
        (0x41 + n - 10) as u8
    }
}

/// The upper case hexadecimal text for `data`: two digits for each byte,
/// the high one first.
pub open spec fn hex_upper(data: Seq<u8>) -> Seq<u8> {
    Seq::new(
        2 * data.len(),
        |i: int|
            if i % 2 == 0 {
                hex_digit_upper(data[i / 2] as int / 16)
            } else {
                hex_digit_upper(data[i / 2] as int % 16)
            },
    )
}

/// The number that a hexadecimal digit of either case writes.
pub open spec fn hex_value(c: u8) -> Option<int> {
    if 0x30 <= c <= 0x39 {
        Some(c - 0x30)
    } else if 0x41 <= c <= 0x46 {
        Some(c - 0x41 + 10)
    } else if 0x61 <= c <= 0x66 {
        Some(c - 0x61 + 10)
    } else {
        None
    }
}

/// `text` is an even number of hexadecimal digits.
pub open spec fn is_hex(text: Seq<u8>) -> bool {
    text.len() % 2 == 0 && forall|i: int| 0 <= i < text.len() ==> hex_value(#[trigger] text[i])
        is Some
}

/// The bytes that hexadecimal text writes.
pub open spec fn hex_bytes(text: Seq<u8>) -> Seq<u8> {
    Seq::new(
        text.len() / 2,
        |i: int| (hex_value(text[2 * i])->0 * 16 + hex_value(text[2 * i + 1])->0) as u8,
    )
}

/// `hex::encode_upper`: the upper case hexadecimal text for `data`.
#[verifier::external_body]
pub(crate) fn hex_encode_upper(data: &[u8]) -> (res: String)
    ensures
        encode_utf8(res@) == hex_upper(data@),
{
    hex::encode_upper(data)
}

/// `hex::decode_to_slice` into 32 bytes: the bytes that `text` writes, if it
/// is 64 hexadecimal digits.
#[verifier::external_body]
pub(crate) fn hex_decode_32(text: &[u8]) -> (res: Option<[u8; 32]>)
    ensures
        match res {
            Some(out) => is_hex(text@) && text@.len() == 64 && out@ == hex_bytes(text@),
            None => !(is_hex(text@) && text@.len() == 64),
        },
{
    let mut out = [0u8; 32];
    match hex::decode_to_slice(text, &mut out) {
        Ok(()) => Some(out),
        Err(_) => None,
    }
}

/// What `base32::encode` gives for `data` with the alphabet of RFC 4648 and
/// no padding.
pub uninterp spec fn base32_text(data: Seq<u8>) -> Seq<u8>;

/// What `base32::decode` gives for `text` with the alphabet of RFC 4648.
pub uninterp spec fn base32_data(text: Seq<u8>) -> Option<Seq<u8>>;

/// What `base64::encode` gives for `data`.
pub uninterp spec fn base64_text(data: Seq<u8>) -> Seq<u8>;

/// What `base64::decode` gives for `text`.
pub uninterp spec fn base64_data(text: Seq<u8>) -> Option<Seq<u8>>;

/// `text` with its upper case letters turned to lower case.
pub open spec fn ascii_lower(text: Seq<u8>) -> Seq<u8> {
    Seq::new(
        text.len(),
        |i: int|
            if 0x41 <= text[i] <= 0x5a {
                (text[i] + 0x20) as u8
            } else {
                text[i]
            },
    )
}

/// `base32::encode` with the alphabet of RFC 4648 and no padding.
///
/// The text is ASCII, has eight characters for every five bytes, rounded
/// up, and decodes to `data` again, also when it is turned to lower case.
#[verifier::external_body]
pub(crate) fn base32_encode(data: &[u8]) -> (res: String)
    requires
        data@.len() <= 0x1000_0000,
    ensures
        encode_utf8(res@) == base32_text(data@),
        is_ascii_bytes(encode_utf8(res@)),
        encode_utf8(res@).len() == (data@.len() * 8 + 4) / 5,
        base32_data(encode_utf8(res@)) == Some(data@),
        base32_data(ascii_lower(encode_utf8(res@))) == Some(data@),
{
    base32::encode(base32::Alphabet::RFC4648 { padding: false }, data)
}

/// Whether `text` is made of the characters of base64: letters, digits,
/// `+`, `/` and `=`.
pub open spec fn is_base64(text: Seq<u8>) -> bool {
    forall|i: int|
        0 <= i < text.len() ==> {
            let b = #[trigger] text[i];
            is_alphanumeric(b) || b == 0x2b || b == 0x2f || b == 0x3d
        }
}

/// `base32::decode` with the alphabet of RFC 4648.
#[verifier::external_body]
pub(crate) fn base32_decode(text: &str) -> (res: Option<Vec<u8>>)
    requires
        encode_utf8(text@).len() <= 0x1000_0000,
    ensures
        match res {
            Some(data) => base32_data(encode_utf8(text@)) == Some(data@),
            None => base32_data(encode_utf8(text@)) is None,
        },
{
    base32::decode(base32::Alphabet::RFC4648 { padding: false }, text)
}

/// `base64::encode`. The text is made of letters, digits, `+`, `/` and
/// `=`, and decodes to `data` again.
#[verifier::external_body]
pub(crate) fn base64_encode(data: &[u8]) -> (res: String)
    requires
        data@.len() <= 0x1000_0000,
    ensures
        encode_utf8(res@) == base64_text(data@),
        is_ascii_bytes(encode_utf8(res@)),
        is_base64(encode_utf8(res@)),
        base64_data(encode_utf8(res@)) == Some(data@),
{
    base64::encode(data)
}

/// `base64::decode`. No slice is long enough to make its estimate of the
/// length of the result overflow.
#[verifier::external_body]
pub(crate) fn base64_decode(text: &[u8]) -> (res: Option<Vec<u8>>)
    ensures
        match res {
            Some(data) => base64_data(text@) == Some(data@),
            None => base64_data(text@) is None,
        },
{
    base64::decode(text).ok()
}

} // verus!

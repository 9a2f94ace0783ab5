//! Conversions between byte sequences and strings.
//!
//! The protocol is a byte protocol. Contracts in this library speak of a
//! string through the bytes of its UTF-8 encoding.

use vstd::prelude::*;
use vstd::string::StringSliceAdditionalSpecFns;
use vstd::utf8::{
    encode_utf8, encode_utf8_decode_utf8, encode_utf8_valid_utf8, is_char_boundary,
    is_char_boundary_iff_not_is_continuation_byte, partial_valid_utf8_extend_ascii_block,
    valid_utf8,
};

verus! {

/// Every byte is below 128.
pub open spec fn is_ascii_bytes(bytes: Seq<u8>) -> bool {
    forall|i: int| 0 <= i < bytes.len() ==> #[trigger] bytes[i] < 0x80
}

/// `std::str::from_utf8`: the string slice over `bytes` when they are valid
/// UTF-8, and nothing when they are not.
#[verifier::external_body]
pub(crate) fn str_from_utf8(bytes: &[u8]) -> (res: Option<&str>)
    ensures
        res is Some <==> valid_utf8(bytes@),
        res matches Some(s) ==> s.spec_bytes() == bytes@,
{
    std::str::from_utf8(bytes).ok()
}

/// ASCII bytes are valid UTF-8.
pub proof fn lemma_ascii_is_utf8(bytes: Seq<u8>)
    requires
        is_ascii_bytes(bytes),
    ensures
        valid_utf8(bytes),
{
    partial_valid_utf8_extend_ascii_block(bytes, 0, bytes.len() as int);
    assert(bytes.subrange(0, bytes.len() as int) =~= bytes);
}

/// Two strings with the same encoding are the same string.
pub proof fn lemma_same_bytes_same_text(a: Seq<char>, b: Seq<char>)
    requires
        encode_utf8(a) == encode_utf8(b),
    ensures
        a == b,
{
    encode_utf8_decode_utf8(a);
    encode_utf8_decode_utf8(b);
}

/// The string that `bytes` encode.
pub fn string_from_ascii(bytes: &[u8]) -> (res: String)
    requires
        is_ascii_bytes(bytes@),
    ensures
        encode_utf8(res@) == bytes@,
{
    proof {
        lemma_ascii_is_utf8(bytes@);
    }
    let text = str_from_utf8(bytes);
    text.unwrap().to_owned()
}

/// Tells whether two strings are equal.
pub fn str_eq(a: &str, b: &str) -> (res: bool)
    ensures
        res == (a@ == b@),
        res == (a.spec_bytes() == b.spec_bytes()),
{
    let x = a.as_bytes();
    let y = b.as_bytes();
    let res = bytes_eq(x, y);
    proof {
        if res {
            lemma_same_bytes_same_text(a@, b@);
        }
    }
    res
}

/// Tells whether two byte slices are equal.
pub fn bytes_eq(a: &[u8], b: &[u8]) -> (res: bool)
    ensures
        res == (a@ == b@),
{
    if a.len() != b.len() {
        return false;
    }
    let mut i: usize = 0;
    while i < a.len()
        invariant
            a.len() == b.len(),
            i <= a.len(),
            forall|j: int| 0 <= j < i ==> a@[j] == b@[j],
        decreases a.len() - i,
    {
        if a[i] != b[i] {
            return false;
        }
        i += 1;
    }
    assert(a@ =~= b@);
    true
}

/// Splits `text` around the ASCII byte at offset `i`: what stands before
/// that byte and what stands behind it.
pub fn split_around(text: &str, i: usize) -> (res: (&str, &str))
    requires
        i < text.spec_bytes().len(),
        text.spec_bytes()[i as int] < 0x80,
    ensures
        res.0.spec_bytes() == text.spec_bytes().subrange(0, i as int),
        res.1.spec_bytes() == text.spec_bytes().subrange(i + 1, text.spec_bytes().len() as int),
{
    let ghost bytes = text.spec_bytes();
    proof {
        encode_utf8_valid_utf8(text@);
        is_char_boundary_iff_not_is_continuation_byte(bytes, i as int);
    }
    let (head, rest) = text.split_at(i);
    proof {
        encode_utf8_valid_utf8(rest@);
        reveal_with_fuel(is_char_boundary, 2);
    }
    let (_, tail) = rest.split_at(1);
    (head, tail)
}

/// The decimal digits of a number, without leading zeros.
pub open spec fn decimal(n: nat) -> Seq<u8>
    decreases n,
{
    if n < 10 {
        seq![(0x30 + n) as u8]
    } else {
        decimal(n / 10).push((0x30 + n % 10) as u8)
    }
}

/// Appends the decimal digits of `n`.
pub fn push_decimal(out: &mut Vec<u8>, n: u16)
    ensures
        final(out)@ == old(out)@ + decimal(n as nat),
    decreases n,
{
    if n >= 10 {
        push_decimal(out, n / 10);
    }
    out.push(0x30 + (n % 10) as u8);
}

} // verus!

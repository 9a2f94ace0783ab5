//! `KEY=VALUE` lines of replies.

use crate::utils::text::split_around;
use crate::utils::{is_alphanumeric, EQUALS, SPACE};
use vstd::prelude::*;
use vstd::string::StringSliceAdditionalSpecFns;

verus! {

/// A byte allowed in a key: an ASCII letter or digit, a space, or one of
/// `_`, `-`, `/` and `$`.
pub open spec fn is_key_byte(b: u8) -> bool {
    is_alphanumeric(b) || b == SPACE || b == 0x5f || b == 0x2d || b == 0x2f || b == 0x24
}

/// `text` holds a key of `k` bytes, with an equals sign behind it.
pub open spec fn has_key(text: Seq<u8>, k: int) -> bool {
    &&& 0 < k < text.len()
    &&& text[k] == EQUALS
    &&& forall|i: int| 0 <= i < k ==> is_key_byte(#[trigger] text[i])
}

/// Tells whether `b` may stand in a key.
fn key_byte(b: u8) -> (res: bool)
    ensures
        res == is_key_byte(b),
{
    (0x30 <= b && b <= 0x39) || (0x41 <= b && b <= 0x5a) || (0x61 <= b && b <= 0x7a) || b == SPACE
        || b == 0x5f || b == 0x2d || b == 0x2f || b == 0x24
}

/// The length of the key at the head of `bytes`, if there is one.
pub fn key_length(bytes: &[u8]) -> (res: Option<usize>)
    ensures
        match res {
            Some(k) => has_key(bytes@, k as int),
            None => forall|k: int| !has_key(bytes@, k),
        },
{
    let mut i: usize = 0;
    while i < bytes.len()
        invariant
            i <= bytes.len(),
            forall|j: int| 0 <= j < i ==> is_key_byte(#[trigger] bytes@[j]),
        decreases bytes.len() - i,
    {
        let b = bytes[i];
        if b == EQUALS {
            if i == 0 {
                return None;
            }
            return Some(i);
        }
        if !key_byte(b) {
            return None;
        }
        i += 1;
    }
    None
}

/// The length of a key is the place of the first equals sign, so a text
/// has one key at most.
pub proof fn lemma_key_is_unique(text: Seq<u8>, a: int, b: int)
    requires
        has_key(text, a),
        has_key(text, b),
    ensures
        a == b,
{
}

/// Splits `KEY=VALUE` at the first equals sign.
///
/// The key is not empty and holds key bytes only. The value is what stands
/// behind the equals sign, as it is: it may be empty, and a quoted value is
/// not unquoted. A text without such a key is refused.
pub fn parse_single_key_value(text: &str) -> (res: Result<(&str, &str), ()>)
    ensures
        match res {
            Ok((key, value)) => {
                &&& has_key(text.spec_bytes(), key.spec_bytes().len() as int)
                &&& key.spec_bytes() == text.spec_bytes().subrange(
                    0,
                    key.spec_bytes().len() as int,
                )
                &&& value.spec_bytes() == text.spec_bytes().subrange(
                    key.spec_bytes().len() as int + 1,
                    text.spec_bytes().len() as int,
                )
            },
            Err(_) => forall|k: int| !has_key(text.spec_bytes(), k),
        },
{
    match key_length(text.as_bytes()) {
        Some(k) => {
            let (key, value) = split_around(text, k);
            Ok((key, value))
        },
        None => Err(()),
    }
}

} // verus!

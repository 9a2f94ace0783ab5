//! Small helpers shared by the protocol engine: character classes, the
//! validation of what is sent in a command, and the octal decoder used by
//! the quoting codec.

pub mod codec;
pub mod crypto;
pub mod key_value;
pub mod quoted;
pub mod run;
pub mod text;

pub use key_value::parse_single_key_value;
pub use quoted::{quote_string, unquote_string, UnquoteStringError};

use vstd::prelude::*;
use vstd::string::StringSliceAdditionalSpecFns;

verus! {

/// `"`
pub const QUOTE: u8 = 0x22;

/// `\`
pub const BACKSLASH: u8 = 0x5c;

/// ` `
pub const SPACE: u8 = 0x20;

/// `=`
pub const EQUALS: u8 = 0x3d;

/// Carriage return.
pub const CR: u8 = 0x0d;

/// Line feed.
pub const LF: u8 = 0x0a;

/// Horizontal tab.
pub const TAB: u8 = 0x09;

/// `0`
pub const ZERO: u8 = 0x30;

/// An ASCII digit `0`..`9`.
pub open spec fn is_digit(b: u8) -> bool {
    0x30 <= b <= 0x39
}

/// An octal digit `0`..`7`.
pub open spec fn is_octal_digit(b: u8) -> bool {
    0x30 <= b <= 0x37
}

/// An ASCII upper case letter.
pub open spec fn is_upper(b: u8) -> bool {
    0x41 <= b <= 0x5a
}

/// An ASCII lower case letter.
pub open spec fn is_lower(b: u8) -> bool {
    0x61 <= b <= 0x7a
}

/// An ASCII letter or digit.
pub open spec fn is_alphanumeric(b: u8) -> bool {
    is_digit(b) || is_upper(b) || is_lower(b)
}

/// A byte allowed in a configuration keyword: an upper case letter or `_`.
pub open spec fn is_keyword_byte(b: u8) -> bool {
    is_upper(b) || b == 0x5f
}

/// A text is a keyword when it is not empty and holds keyword bytes only.
pub open spec fn is_keyword(text: Seq<u8>) -> bool {
    text.len() > 0 && forall|i: int| 0 <= i < text.len() ==> is_keyword_byte(#[trigger] text[i])
}

/// A byte allowed in the key of `GETINFO`: an ASCII letter or digit, or one
/// of `-`, `_` and `/`.
pub open spec fn is_option_byte(b: u8) -> bool {
    is_alphanumeric(b) || b == 0x2d || b == 0x5f || b == 0x2f
}

/// A text is an option when it is not empty and holds option bytes only.
pub open spec fn is_option(text: Seq<u8>) -> bool {
    text.len() > 0 && forall|i: int| 0 <= i < text.len() ==> is_option_byte(#[trigger] text[i])
}

/// A byte allowed in a host name: an ASCII letter or digit, or one of `-`,
/// `.` and `_`.
pub open spec fn is_hostname_byte(b: u8) -> bool {
    is_alphanumeric(b) || b == 0x2d || b == 0x2e || b == 0x5f
}

/// A text is a host name when it is not empty and holds host name bytes
/// only.
pub open spec fn is_hostname(text: Seq<u8>) -> bool {
    text.len() > 0 && forall|i: int| 0 <= i < text.len() ==> is_hostname_byte(#[trigger] text[i])
}

/// A byte allowed in the identifier of an onion service: an ASCII letter or
/// digit, `/` or `=`.
pub open spec fn is_service_id_byte(b: u8) -> bool {
    is_alphanumeric(b) || b == 0x2f || b == 0x3d
}

/// A text is the identifier of an onion service when it holds identifier
/// bytes only.
pub open spec fn is_service_id(text: Seq<u8>) -> bool {
    forall|i: int| 0 <= i < text.len() ==> is_service_id_byte(#[trigger] text[i])
}

/// Tells whether `b` is an ASCII letter or digit.
pub fn byte_is_alphanumeric(b: u8) -> (res: bool)
    ensures
        res == is_alphanumeric(b),
{
    (0x30 <= b && b <= 0x39) || (0x41 <= b && b <= 0x5a) || (0x61 <= b && b <= 0x7a)
}

/// Tells whether `config_option` can be sent as the keyword of `GETCONF` or
/// `SETCONF`.
pub fn is_valid_keyword(config_option: &str) -> (res: bool)
    ensures
        res == is_keyword(config_option.spec_bytes()),
{
    let bytes = config_option.as_bytes();
    if bytes.len() == 0 {
        return false;
    }
    let mut i: usize = 0;
    while i < bytes.len()
        invariant
            bytes@ == config_option.spec_bytes(),
            i <= bytes.len(),
            forall|j: int| 0 <= j < i ==> is_keyword_byte(#[trigger] bytes@[j]),
        decreases bytes.len() - i,
    {
        let b = bytes[i];
        if !((b >= 0x41 && b <= 0x5a) || b == 0x5f) {
            return false;
        }
        i += 1;
    }
    true
}

/// Tells whether `option` can be sent as a key of `GETINFO`.
pub fn is_valid_option(option: &str) -> (res: bool)
    ensures
        res == is_option(option.spec_bytes()),
{
    let bytes = option.as_bytes();
    if bytes.len() == 0 {
        return false;
    }
    let mut i: usize = 0;
    while i < bytes.len()
        invariant
            bytes@ == option.spec_bytes(),
            i <= bytes.len(),
            forall|j: int| 0 <= j < i ==> is_option_byte(#[trigger] bytes@[j]),
        decreases bytes.len() - i,
    {
        let b = bytes[i];
        if !(byte_is_alphanumeric(b) || b == 0x2d || b == 0x5f || b == 0x2f) {
            return false;
        }
        i += 1;
    }
    true
}

/// Tells whether `event_name` can be sent as the name of an event: the
/// names of events are keywords.
pub fn is_valid_event(event_name: &str) -> (res: bool)
    ensures
        res == is_keyword(event_name.spec_bytes()),
{
    is_valid_keyword(event_name)
}

/// Tells whether `hostname` can be sent as a host name.
pub fn is_valid_hostname(hostname: &str) -> (res: bool)
    ensures
        res == is_hostname(hostname.spec_bytes()),
{
    let bytes = hostname.as_bytes();
    if bytes.len() == 0 {
        return false;
    }
    let mut i: usize = 0;
    while i < bytes.len()
        invariant
            bytes@ == hostname.spec_bytes(),
            i <= bytes.len(),
            forall|j: int| 0 <= j < i ==> is_hostname_byte(#[trigger] bytes@[j]),
        decreases bytes.len() - i,
    {
        let b = bytes[i];
        if !(byte_is_alphanumeric(b) || b == 0x2d || b == 0x2e || b == 0x5f) {
            return false;
        }
        i += 1;
    }
    true
}

/// Tells whether `identifier` can be sent as the identifier of an onion
/// service.
pub fn is_valid_service_id(identifier: &str) -> (res: bool)
    ensures
        res == is_service_id(identifier.spec_bytes()),
{
    let bytes = identifier.as_bytes();
    let mut i: usize = 0;
    while i < bytes.len()
        invariant
            bytes@ == identifier.spec_bytes(),
            i <= bytes.len(),
            forall|j: int| 0 <= j < i ==> is_service_id_byte(#[trigger] bytes@[j]),
        decreases bytes.len() - i,
    {
        let b = bytes[i];
        if !(byte_is_alphanumeric(b) || b == 0x2f || b == 0x3d) {
            return false;
        }
        i += 1;
    }
    true
}

/// The number that a triple of bytes holds in its trailing octal digits:
/// digits are read from the last byte backwards, up to the first byte that
/// is no octal digit. Nothing when the last byte is no octal digit.
pub open spec fn trailing_octal_value(data: Seq<u8>) -> Option<int>
    recommends
        data.len() == 3,
{
    if !is_octal_digit(data[2]) {
        None
    } else if !is_octal_digit(data[1]) {
        Some(data[2] - ZERO)
    } else if !is_octal_digit(data[0]) {
        Some((data[1] - ZERO) * 8 + (data[2] - ZERO))
    } else {
        Some((data[0] - ZERO) * 64 + (data[1] - ZERO) * 8 + (data[2] - ZERO))
    }
}

/// Decodes the trailing octal digits of `data` to a byte. Bytes in front of
/// the digits are ignored. Nothing is returned when the last byte is no
/// octal digit or the number is above 255.
pub fn octal_ascii_triple_to_byte(data: [u8; 3]) -> (res: Option<u8>)
    ensures
        res == match trailing_octal_value(data@) {
            Some(v) => if v <= 255 {
                Some(v as u8)
            } else {
                None
            },
            None => None,
        },
{
    if !digit_is_octal(data[2]) {
        return None;
    }
    let mut value: u16 = (data[2] - ZERO) as u16;
    if digit_is_octal(data[1]) {
        value = value + ((data[1] - ZERO) as u16) * 8;
        if digit_is_octal(data[0]) {
            value = value + ((data[0] - ZERO) as u16) * 64;
        }
    }
    if value > 255 {
        return None;
    }
    Some(value as u8)
}

/// Tells whether `b` is an octal digit.
pub fn digit_is_octal(b: u8) -> (res: bool)
    ensures
        res == is_octal_digit(b),
{
    0x30 <= b && b <= 0x37
}

} // verus!

//! The codec of the protocol's `QuotedString` token.
//!
//! [`quote_string`] turns any bytes into a quoted string, [`unquote_string`]
//! reads one. Both are stated over byte sequences: [`quoted`] says what the
//! encoder writes, [`unquote`] what the decoder reads.

use crate::utils::text::{is_ascii_bytes, str_from_utf8, string_from_ascii};
use crate::utils::{
    digit_is_octal, is_alphanumeric, is_octal_digit, octal_ascii_triple_to_byte, BACKSLASH, CR, LF,
    QUOTE, TAB, ZERO,
};
use vstd::prelude::*;
use vstd::slice::slice_to_vec;
use vstd::string::StringSliceAdditionalSpecFns;
use vstd::utf8::{encode_utf8, valid_utf8};

verus! {

/// `n`
pub const LOWER_N: u8 = 0x6e;

/// `r`
pub const LOWER_R: u8 = 0x72;

/// `t`
pub const LOWER_T: u8 = 0x74;

/// The bytes that a quoted string decoded to, when they are no valid UTF-8.
#[derive(Debug)]
pub struct UnquoteStringError {
    pub bytes: Vec<u8>,
}

impl UnquoteStringError {
    /// The decoded bytes.
    pub fn into_bytes(self) -> (res: Vec<u8>)
        ensures
            res@ == self.bytes@,
    {
        self.bytes
    }
}

/// ASCII punctuation.
pub open spec fn is_punctuation(b: u8) -> bool {
    ||| 0x21 <= b <= 0x2f
    ||| 0x3a <= b <= 0x40
    ||| 0x5b <= b <= 0x60
    ||| 0x7b <= b <= 0x7e
}

/// The bytes that are written as a backslash and a letter or themselves.
pub open spec fn has_short_escape(b: u8) -> bool {
    b == LF || b == CR || b == TAB || b == BACKSLASH || b == QUOTE
}

/// The bytes that are written as a backslash and octal digits.
pub open spec fn needs_octal(b: u8) -> bool {
    !has_short_escape(b) && !is_alphanumeric(b) && !is_punctuation(b)
}

/// The shortest octal representation of a byte, one to three digits.
pub open spec fn octal_digits(b: u8) -> Seq<u8> {
    if b < 8 {
        seq![(ZERO + b) as u8]
    } else if b < 64 {
        seq![(ZERO + b / 8) as u8, (ZERO + b % 8) as u8]
    } else {
        seq![(ZERO + b / 64) as u8, (ZERO + (b / 8) % 8) as u8, (ZERO + b % 8) as u8]
    }
}

/// What the encoder writes for one byte.
pub open spec fn quote_byte(b: u8) -> Seq<u8> {
    if b == LF {
        seq![BACKSLASH, LOWER_N]
    } else if b == CR {
        seq![BACKSLASH, LOWER_R]
    } else if b == TAB {
        seq![BACKSLASH, LOWER_T]
    } else if b == BACKSLASH {
        seq![BACKSLASH, BACKSLASH]
    } else if b == QUOTE {
        seq![BACKSLASH, QUOTE]
    } else if needs_octal(b) {
        seq![BACKSLASH] + octal_digits(b)
    } else {
        seq![b]
    }
}

/// What the encoder writes between the two quotes.
pub open spec fn quote_body(text: Seq<u8>) -> Seq<u8>
    decreases text.len(),
{
    if text.len() == 0 {
        Seq::empty()
    } else {
        quote_byte(text[0]) + quote_body(text.skip(1))
    }
}

/// The quoted string for `text`.
pub open spec fn quoted(text: Seq<u8>) -> Seq<u8> {
    seq![QUOTE] + quote_body(text) + seq![QUOTE]
}

/// The position of the first quote at or after `i` that no backslash
/// escapes. `escaped` tells whether the byte at `i` follows an unescaped
/// backslash.
pub open spec fn find_closing_quote(text: Seq<u8>, i: int, escaped: bool) -> Option<int>
    decreases text.len() - i,
{
    if i < 0 || i >= text.len() {
        None
    } else if escaped {
        find_closing_quote(text, i + 1, false)
    } else if text[i] == BACKSLASH {
        find_closing_quote(text, i + 1, true)
    } else if text[i] == QUOTE {
        Some(i)
    } else {
        find_closing_quote(text, i + 1, false)
    }
}

/// The number of octal digits at the head of `s`, three at most.
pub open spec fn octal_run(s: Seq<u8>) -> int {
    if s.len() >= 1 && is_octal_digit(s[0]) {
        if s.len() >= 2 && is_octal_digit(s[1]) {
            if s.len() >= 3 && is_octal_digit(s[2]) {
                3
            } else {
                2
            }
        } else {
            1
        }
    } else {
        0
    }
}

/// The number that one to three octal digits write.
pub open spec fn octal_value(digits: Seq<u8>) -> int {
    if digits.len() == 1 {
        digits[0] - ZERO
    } else if digits.len() == 2 {
        (digits[0] - ZERO) * 8 + (digits[1] - ZERO)
    } else {
        (digits[0] - ZERO) * 64 + (digits[1] - ZERO) * 8 + (digits[2] - ZERO)
    }
}

/// What a backslash and a byte that is no octal digit stand for.
pub open spec fn escaped_byte(c: u8) -> u8 {
    if c == LOWER_N {
        LF
    } else if c == LOWER_R {
        CR
    } else if c == LOWER_T {
        TAB
    } else {
        c
    }
}

/// What a backslash and the octal digits `digits` stand for: the byte they
/// write, or the digits themselves when the number is above 255.
pub open spec fn octal_escape(digits: Seq<u8>) -> Seq<u8> {
    if octal_value(digits) <= 255 {
        seq![octal_value(digits) as u8]
    } else {
        digits
    }
}

/// The bytes that the body of a quoted string stands for.
///
/// A backslash takes the longest run of octal digits behind it, three at
/// most. Behind any other byte it stands for that byte, with `n`, `r` and
/// `t` read as in C. A backslash that ends the body stands for nothing.
pub open spec fn unescape(s: Seq<u8>) -> Seq<u8>
    decreases s.len(),
{
    if s.len() == 0 {
        Seq::empty()
    } else if s[0] != BACKSLASH {
        seq![s[0]] + unescape(s.skip(1))
    } else if s.len() == 1 {
        Seq::empty()
    } else {
        let n = octal_run(s.skip(1));
        if n > 0 {
            octal_escape(s.subrange(1, 1 + n)) + unescape(s.skip(1 + n))
        } else {
            seq![escaped_byte(s[1])] + unescape(s.skip(2))
        }
    }
}

/// What the decoder reads from `text`: where the closing quote stands and
/// the decoded bytes. A text that does not start with a quote, or has no
/// closing quote, is taken as it is.
pub open spec fn unquote(text: Seq<u8>) -> (Option<int>, Seq<u8>) {
    match find_closing_quote(text, 1, false) {
        Some(k) => if text[0] == QUOTE {
            (Some(k), unescape(text.subrange(1, k)))
        } else {
            (None, text)
        },
        None => (None, text),
    }
}

/// A text in which no byte that is written with one or two octal digits
/// stands in front of an octal digit. Such a digit would be read as part of
/// the escape.
pub open spec fn unambiguous(text: Seq<u8>) -> bool {
    forall|i: int, j: int|
        0 <= i && j == i + 1 && j < text.len() && needs_octal(#[trigger] text[i]) && text[i] < 64
            ==> !is_octal_digit(#[trigger] text[j])
}

/// Tells whether `b` is written as itself.
fn is_plain(b: u8) -> (res: bool)
    ensures
        res == (!has_short_escape(b) && !needs_octal(b)),
{
    if b == BACKSLASH || b == QUOTE {
        false
    } else {
        (0x30 <= b && b <= 0x39) || (0x41 <= b && b <= 0x5a) || (0x61 <= b && b <= 0x7a) || (0x21
            <= b && b <= 0x2f) || (0x3a <= b && b <= 0x40) || (0x5b <= b && b <= 0x60) || (0x7b
            <= b && b <= 0x7e)
    }
}

/// Appends what the encoder writes for `b`.
fn push_quoted_byte(out: &mut Vec<u8>, b: u8)
    ensures
        final(out)@ == old(out)@ + quote_byte(b),
{
    if b == LF {
        out.push(BACKSLASH);
        out.push(LOWER_N);
    } else if b == CR {
        out.push(BACKSLASH);
        out.push(LOWER_R);
    } else if b == TAB {
        out.push(BACKSLASH);
        out.push(LOWER_T);
    } else if b == BACKSLASH {
        out.push(BACKSLASH);
        out.push(BACKSLASH);
    } else if b == QUOTE {
        out.push(BACKSLASH);
        out.push(QUOTE);
    } else if is_plain(b) {
        out.push(b);
    } else {
        out.push(BACKSLASH);
        if b >= 64 {
            out.push(ZERO + b / 64);
        }
        if b >= 8 {
            out.push(ZERO + (b / 8) % 8);
        }
        out.push(ZERO + b % 8);
    }
}

/// Appends the quoted string for `text` to `out`.
pub fn push_quoted(out: &mut Vec<u8>, text: &[u8])
    ensures
        final(out)@ == old(out)@ + quoted(text@),
{
    out.push(QUOTE);
    let mut i: usize = 0;
    assert(text@.skip(0) =~= text@);
    while i < text.len()
        invariant
            i <= text.len(),
            out@ + quote_body(text@.skip(i as int)) == old(out)@ + seq![QUOTE] + quote_body(text@),
        decreases text.len() - i,
    {
        let ghost rest = text@.skip(i as int);
        push_quoted_byte(out, text[i]);
        proof {
            assert(rest.skip(1) =~= text@.skip(i + 1));
        }
        i += 1;
    }
    out.push(QUOTE);
}

/// A quoted string holds ASCII only.
pub proof fn lemma_quoted_is_ascii(text: Seq<u8>)
    ensures
        is_ascii_bytes(quote_body(text)),
        is_ascii_bytes(quoted(text)),
    decreases text.len(),
{
    if text.len() > 0 {
        lemma_quoted_is_ascii(text.skip(1));
        let head = quote_byte(text[0]);
        let tail = quote_body(text.skip(1));
    }
    let body = quote_body(text);
}

/// Encodes arbitrary bytes as a quoted string: a quote, each byte as
/// [`quote_byte`] says, and a quote.
pub fn quote_string(text: &[u8]) -> (res: String)
    ensures
        encode_utf8(res@) == quoted(text@),
{
    let mut out: Vec<u8> = Vec::new();
    push_quoted(&mut out, text);
    proof {
        lemma_quoted_is_ascii(text@);
    }
    string_from_ascii(out.as_slice())
}

/// Finds the closing quote of a text that starts with a quote.
fn closing_quote(bytes: &[u8]) -> (res: Option<usize>)
    ensures
        match res {
            Some(k) => find_closing_quote(bytes@, 1, false) == Some(k as int) && 1 <= k
                < bytes.len(),
            None => find_closing_quote(bytes@, 1, false) is None,
        },
{
    let mut i: usize = 1;
    let mut escaped = false;
    while i < bytes.len()
        invariant
            1 <= i,
            find_closing_quote(bytes@, 1, false) == find_closing_quote(bytes@, i as int, escaped),
        decreases bytes.len() - i,
    {
        let c = bytes[i];
        if escaped {
            escaped = false;
        } else if c == BACKSLASH {
            escaped = true;
        } else if c == QUOTE {
            return Some(i);
        }
        i += 1;
    }
    None
}

/// Decodes `bytes[start..end]`, the body of a quoted string.
fn unescape_range(bytes: &[u8], start: usize, end: usize) -> (res: Vec<u8>)
    requires
        start <= end <= bytes.len(),
    ensures
        res@ == unescape(bytes@.subrange(start as int, end as int)),
{
    let mut out: Vec<u8> = Vec::new();
    let mut i: usize = start;
    let ghost body = bytes@.subrange(start as int, end as int);
    assert(body.skip(0) =~= body);
    while i < end
        invariant
            start <= i <= end <= bytes.len(),
            body == bytes@.subrange(start as int, end as int),
            out@ + unescape(body.skip(i - start)) == unescape(body),
        decreases end - i,
    {
        let ghost s = body.skip(i - start);
        let c = bytes[i];
        if c != BACKSLASH {
            out.push(c);
            proof {
                assert(s.skip(1) =~= body.skip(i + 1 - start));
            }
            i += 1;
        } else if i + 1 == end {
            i += 1;
        } else {
            let d = bytes[i + 1];
            if digit_is_octal(d) {
                let mut n: usize = 1;
                let mut triple: [u8; 3] = [0, 0, d];
                if i + 2 < end && digit_is_octal(bytes[i + 2]) {
                    n = 2;
                    triple = [0, d, bytes[i + 2]];
                    if i + 3 < end && digit_is_octal(bytes[i + 3]) {
                        n = 3;
                        triple = [d, bytes[i + 2], bytes[i + 3]];
                    }
                }
                match octal_ascii_triple_to_byte(triple) {
                    Some(v) => {
                        out.push(v);
                    },
                    None => {
                        out.push(d);
                        if n >= 2 {
                            out.push(bytes[i + 2]);
                        }
                        if n >= 3 {
                            out.push(bytes[i + 3]);
                        }
                    },
                }
                proof {
                    assert(s.skip(1 + n) =~= body.skip(i + 1 + n - start));
                }
                i += 1 + n;
            } else {
                let e = if d == LOWER_N {
                    LF
                } else if d == LOWER_R {
                    CR
                } else if d == LOWER_T {
                    TAB
                } else {
                    d
                };
                out.push(e);
                proof {
                    assert(s.skip(2) =~= body.skip(i + 2 - start));
                }
                i += 2;
            }
        }
    }
    out
}

/// Reads a quoted string from the head of `bytes`: the offset of the
/// closing quote and the decoded bytes, as [`unquote`] says.
pub fn unquote_bytes(bytes: &[u8]) -> (res: (Option<usize>, Vec<u8>))
    ensures
        match res.0 {
            Some(k) => unquote(bytes@).0 == Some(k as int) && 1 <= k < bytes@.len() && bytes@[k as int]
                == QUOTE,
            None => unquote(bytes@).0 is None,
        },
        res.1@ == unquote(bytes@).1,
{
    proof {
        lemma_closing_quote_is_quote(bytes@, 1, false);
    }
    if bytes.len() < 2 || bytes[0] != QUOTE {
        return (None, slice_to_vec(bytes));
    }
    match closing_quote(bytes) {
        None => (None, slice_to_vec(bytes)),
        Some(k) => (Some(k), unescape_range(bytes, 1, k)),
    }
}

/// Reads a quoted string from the head of `text`.
///
/// The first part of the result is the byte offset of the closing quote,
/// the second the decoded text. A text that is not quoted comes back as it
/// is, with no offset. Decoded bytes that are no valid UTF-8 come back as an
/// error that holds them.
pub fn unquote_string(text: &str) -> (res: (Option<usize>, Result<String, UnquoteStringError>))
    ensures
        match res.0 {
            Some(k) => unquote(text.spec_bytes()).0 == Some(k as int) && k < text.spec_bytes().len()
                && text.spec_bytes()[k as int] == QUOTE,
            None => unquote(text.spec_bytes()).0 is None,
        },
        match res.1 {
            Ok(s) => valid_utf8(unquote(text.spec_bytes()).1) && encode_utf8(s@) == unquote(
                text.spec_bytes(),
            ).1,
            Err(e) => !valid_utf8(unquote(text.spec_bytes()).1) && e.bytes@ == unquote(
                text.spec_bytes(),
            ).1,
        },
{
    let (end, decoded) = unquote_bytes(text.as_bytes());
    match str_from_utf8(decoded.as_slice()) {
        Some(s) => (end, Ok(s.to_owned())),
        None => (end, Err(UnquoteStringError { bytes: decoded })),
    }
}

/// The closing quote is a quote.
pub proof fn lemma_closing_quote_is_quote(text: Seq<u8>, i: int, escaped: bool)
    requires
        0 <= i,
    ensures
        find_closing_quote(text, i, escaped) matches Some(k) ==> i <= k < text.len() && text[k]
            == QUOTE,
    decreases text.len() - i,
{
    if i < text.len() {
        if escaped {
            lemma_closing_quote_is_quote(text, i + 1, false);
        } else if text[i] == BACKSLASH {
            lemma_closing_quote_is_quote(text, i + 1, true);
        } else if text[i] != QUOTE {
            lemma_closing_quote_is_quote(text, i + 1, false);
        }
    }
}

/// The octal digits of a byte are octal digits and write that byte.
proof fn lemma_octal_digits(b: u8)
    ensures
        1 <= octal_digits(b).len() <= 3,
        octal_digits(b).len() < 3 <==> b < 64,
        forall|i: int| 0 <= i < octal_digits(b).len() ==> is_octal_digit(#[trigger] octal_digits(b)[i]),
        octal_value(octal_digits(b)) == b,
{
}

/// The scan for the closing quote passes over an encoded body and stops at
/// the quote behind it.
proof fn lemma_scan_over_body(s: Seq<u8>, p: int, text: Seq<u8>)
    requires
        0 <= p <= s.len(),
        s.subrange(p, s.len() as int) == quote_body(text) + seq![QUOTE],
    ensures
        find_closing_quote(s, p, false) == Some(s.len() - 1),
    decreases text.len(),
{
    let tail = s.subrange(p, s.len() as int);
    if text.len() == 0 {
        assert(tail[0] == QUOTE);
    } else {
        let b = text[0];
        let token = quote_byte(b);
        let m = token.len() as int;
        let rest = quote_body(text.skip(1));
        lemma_octal_digits(b);
        assert(tail.len() == m + rest.len() + 1);
        assert forall|k: int| 0 <= k < m implies s[p + k] == #[trigger] token[k] by {
            assert(tail[k] == token[k]);
        }
        assert(s[p] == tail[0] && tail[0] == token[0]);
        if has_short_escape(b) || needs_octal(b) {
            assert(find_closing_quote(s, p + 1, true) == find_closing_quote(s, p + 2, false));
            if m >= 3 {
                assert(is_octal_digit(token[2]));
            }
            if m >= 4 {
                assert(is_octal_digit(token[3]));
                assert(find_closing_quote(s, p + 3, false) == find_closing_quote(s, p + 4, false));
            }
        }
        assert forall|k: int| 0 <= k < rest.len() + 1 implies s.subrange(p + m, s.len() as int)[k]
            == (rest + seq![QUOTE])[k] by {
            assert(tail[m + k] == (rest + seq![QUOTE])[k]);
        }
        assert(s.subrange(p + m, s.len() as int) =~= rest + seq![QUOTE]);
        lemma_scan_over_body(s, p + m, text.skip(1));
    }
}

/// Decoding the body that the encoder wrote for `text` gives `text` back.
pub proof fn lemma_unescape_quote_body(text: Seq<u8>)
    requires
        unambiguous(text),
    ensures
        unescape(quote_body(text)) == text,
    decreases text.len(),
{
    if text.len() > 0 {
        let b = text[0];
        let tail = text.skip(1);
        let token = quote_byte(b);
        let rest = quote_body(tail);
        let body = quote_body(text);
        lemma_unescape_quote_body(tail);
        lemma_octal_digits(b);
        if needs_octal(b) {
            let digits = octal_digits(b);
            let n = digits.len() as int;
            let after = body.skip(1);
            if n < 3 && rest.len() > 0 {
                let next = tail[0];
            }
            assert(body.skip(1 + n) =~= rest);
        } else if has_short_escape(b) {
            assert(body.skip(2) =~= rest);
        } else {
            assert(body.skip(1) =~= rest);
        }
    }
}

/// Reading back what was quoted gives the closing quote at the last byte
/// and the quoted bytes, for every text that is unambiguous.
///
/// Of a text that is not, the law does not hold: the byte 1 in front of
/// the digit `3` is written as a backslash and `13`, which reads as the
/// single byte 11.
pub proof fn lemma_quote_round_trip(text: Seq<u8>)
    requires
        unambiguous(text),
    ensures
        unquote(quoted(text)) == (Some(quoted(text).len() - 1), text),
{
    let q = quoted(text);
    let body = quote_body(text);
    assert(q.subrange(1, q.len() as int) =~= body + seq![QUOTE]);
    lemma_scan_over_body(q, 1, text);
    assert(q.subrange(1, q.len() - 1) =~= body);
    lemma_unescape_quote_body(text);
}

/// Two different unambiguous texts are quoted differently.
pub proof fn lemma_quote_injective(a: Seq<u8>, b: Seq<u8>)
    requires
        unambiguous(a),
        unambiguous(b),
    ensures
        a != b ==> quoted(a) != quoted(b),
{
    if quoted(a) == quoted(b) {
        lemma_quote_round_trip(a);
        lemma_quote_round_trip(b);
    }
}

} // verus!

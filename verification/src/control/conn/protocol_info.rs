//! The reply to `PROTOCOLINFO`.
//!
//! The reply has the status 250. Its first line is `PROTOCOLINFO 1`, its
//! last line `OK`, and each line between them is a record `KEY=VALUE`. The
//! record `AUTH METHODS` (or `METHODS`) lists the methods, with commas
//! between them, and may name the cookie file behind a space, as
//! `COOKIEFILE="path"`. The record `VERSION Tor` holds the quoted version.

use crate::control::conn::conn::{line_bytes, ConnError};
use crate::control::primitives::auth::{
    method_of, AuthMethodSet, PreAuthInfo, TorAuthMethod, TorPreAuthInfo,
};
use crate::utils::key_value::{has_key, key_length, lemma_key_is_unique};
use crate::utils::quoted::{unquote, unquote_bytes};
use crate::utils::text::{bytes_eq, str_from_utf8};
use crate::utils::SPACE;
use vstd::prelude::*;
use vstd::slice::slice_subrange;
use vstd::string::StringSliceAdditionalSpecFns;
use vstd::utf8::{encode_utf8, valid_utf8};

verus! {

/// `,`
pub const COMMA: u8 = 0x2c;

/// The length of the key of a record, if the line is a record.
pub open spec fn record_key_len(line: Seq<u8>) -> Option<int> {
    if exists|k: int| has_key(line, k) {
        Some(choose|k: int| has_key(line, k))
    } else {
        None
    }
}

/// The key of a record.
pub open spec fn record_key(line: Seq<u8>) -> Seq<u8> {
    line.take(record_key_len(line)->0)
}

/// The value of a record.
pub open spec fn record_value(line: Seq<u8>) -> Seq<u8> {
    line.skip(record_key_len(line)->0 + 1)
}

/// Every line is a record, and no two records have the same key.
pub open spec fn records_are_distinct(records: Seq<Seq<u8>>) -> bool {
    &&& forall|i: int| 0 <= i < records.len() ==> record_key_len(#[trigger] records[i]) is Some
    &&& forall|i: int, j: int|
        0 <= i < j < records.len() ==> record_key(#[trigger] records[i]) != record_key(
            #[trigger] records[j],
        )
}

/// `records` holds a record with the key `key` at `i`.
pub open spec fn has_record(records: Seq<Seq<u8>>, key: Seq<u8>, i: int) -> bool {
    0 <= i < records.len() && record_key_len(records[i]) is Some && record_key(records[i]) == key
}

/// The value of the record with the key `key`.
pub open spec fn lookup(records: Seq<Seq<u8>>, key: Seq<u8>) -> Option<Seq<u8>> {
    if exists|i: int| has_record(records, key, i) {
        Some(record_value(records[choose|i: int| has_record(records, key, i)]))
    } else {
        None
    }
}

/// ASCII white space.
pub open spec fn is_space(b: u8) -> bool {
    b == SPACE || (0x09 <= b <= 0x0d)
}

/// `text` without the white space at its head.
pub open spec fn trim_start(text: Seq<u8>) -> Seq<u8>
    decreases text.len(),
{
    if text.len() > 0 && is_space(text[0]) {
        trim_start(text.skip(1))
    } else {
        text
    }
}

/// `text` without the white space at its end.
pub open spec fn trim_end(text: Seq<u8>) -> Seq<u8>
    decreases text.len(),
{
    if text.len() > 0 && is_space(text.last()) {
        trim_end(text.drop_last())
    } else {
        text
    }
}

/// `text` without the white space around it.
pub open spec fn trim(text: Seq<u8>) -> Seq<u8> {
    trim_end(trim_start(text))
}

/// The place of the first space in `text` at or behind `from`, or the length
/// of `text`.
pub open spec fn first_space(text: Seq<u8>, from: int) -> int
    decreases text.len() - from,
{
    if from < 0 || from >= text.len() {
        text.len() as int
    } else if text[from] == SPACE {
        from
    } else {
        first_space(text, from + 1)
    }
}

/// `seen` with the method that `name` spells, unless `name` spells none or
/// the method is in `seen`.
pub open spec fn with_method(seen: Set<TorAuthMethod>, name: Seq<u8>) -> Option<
    Set<TorAuthMethod>,
> {
    match method_of(name) {
        Some(m) => if seen.contains(m) {
            None
        } else {
            Some(seen.insert(m))
        },
        None => None,
    }
}

/// The methods that `text` lists behind `start`, with commas between
/// their names, added to `seen`. The scan stands at `i`. A name that spells
/// no method, or one that comes twice, spoils the list.
pub open spec fn listed_methods(text: Seq<u8>, start: int, i: int, seen: Set<TorAuthMethod>)
    -> Option<Set<TorAuthMethod>>
    decreases text.len() - i,
{
    if i < 0 || i >= text.len() {
        with_method(seen, text.subrange(start, text.len() as int))
    } else if text[i] == COMMA {
        match with_method(seen, text.subrange(start, i)) {
            Some(more) => listed_methods(text, i + 1, i + 1, more),
            None => None,
        }
    } else {
        listed_methods(text, start, i + 1, seen)
    }
}

/// The cookie file that the text behind the methods names. The outer
/// `None` is for a text that names it wrongly, the inner for a text that
/// names none.
pub open spec fn cookie_file_of(rest: Seq<u8>) -> Option<Option<Seq<u8>>> {
    let text = trim(rest);
    if text.len() == 0 {
        Some(None)
    } else {
        match record_key_len(text) {
            Some(k) => {
                let path = text.skip(k + 1);
                if text.take(k) == "COOKIEFILE".spec_bytes() && unquote(path).0 == Some(
                    path.len() - 1,
                ) && valid_utf8(unquote(path).1) {
                    Some(Some(unquote(path).1))
                } else {
                    None
                }
            },
            None => None,
        }
    }
}

/// The version that a record value holds: a quoted string at its head.
pub open spec fn version_of(value: Seq<u8>) -> Option<Seq<u8>> {
    if unquote(value).0 is Some && valid_utf8(unquote(value).1) {
        Some(unquote(value).1)
    } else {
        None
    }
}

/// The record that lists the methods.
pub open spec fn methods_record(records: Seq<Seq<u8>>) -> Option<Seq<u8>> {
    match lookup(records, "AUTH METHODS".spec_bytes()) {
        Some(v) => Some(v),
        None => lookup(records, "METHODS".spec_bytes()),
    }
}

/// What the lines of a reply to `PROTOCOLINFO` say, if they are such a
/// reply.
pub open spec fn protocol_info_lines(lines: Seq<Seq<u8>>) -> Option<PreAuthInfo> {
    let records = lines.subrange(1, lines.len() - 1);
    if lines.len() < 3 || lines[0] != "PROTOCOLINFO 1".spec_bytes() || lines.last()
        != "OK".spec_bytes() || !records_are_distinct(records) {
        None
    } else {
        match (methods_record(records), lookup(records, "VERSION Tor".spec_bytes())) {
            (Some(auth), Some(version)) => {
                let end = first_space(auth, 0);
                match (
                    listed_methods(auth.take(end), 0, 0, Set::empty()),
                    cookie_file_of(auth.skip(end)),
                    version_of(version),
                ) {
                    (Some(auth_methods), Some(cookie_file), Some(tor_version)) => Some(
                        PreAuthInfo { tor_version, auth_methods, cookie_file },
                    ),
                    _ => None,
                }
            },
            _ => None,
        }
    }
}

/// What a reply to `PROTOCOLINFO` says. A status other than 250 is
/// reported as it is; anything else that is wrong is a wrong format.
pub open spec fn protocol_info(code: u16, lines: Seq<Seq<u8>>) -> Result<PreAuthInfo, ConnError> {
    if code != 250 {
        Err(ConnError::InvalidResponseCode(code))
    } else {
        match protocol_info_lines(lines) {
            Some(info) => Ok(info),
            None => Err(ConnError::InvalidFormat),
        }
    }
}

/// The key length that [`key_length`] finds is the one of the record.
pub proof fn lemma_record_key_len(line: Seq<u8>, k: int)
    requires
        has_key(line, k),
    ensures
        record_key_len(line) == Some(k),
{
    let c = choose|c: int| has_key(line, c);
    lemma_key_is_unique(line, c, k);
}

/// Tells whether every line of `lines[from..to]` is a record and no two
/// records have the same key.
fn check_records(lines: &Vec<String>, from: usize, to: usize) -> (res: bool)
    requires
        from <= to <= lines.len(),
    ensures
        res == records_are_distinct(line_bytes(lines@).subrange(from as int, to as int)),
{
    let ghost records = line_bytes(lines@).subrange(from as int, to as int);
    let mut i: usize = from;
    while i < to
        invariant
            from <= i <= to <= lines.len(),
            records == line_bytes(lines@).subrange(from as int, to as int),
            forall|a: int| 0 <= a < i - from ==> record_key_len(#[trigger] records[a]) is Some,
            forall|a: int, b: int|
                0 <= a < b < i - from ==> record_key(#[trigger] records[a]) != record_key(
                    #[trigger] records[b],
                ),
        decreases to - i,
    {
        let line = lines[i].as_str().as_bytes();
        match key_length(line) {
            None => {
                assert(record_key_len(records[i - from]) is None);
                return false;
            },
            Some(k) => {
                proof {
                    lemma_record_key_len(line@, k as int);
                }
                let key = slice_subrange(line, 0, k);
                let mut j: usize = from;
                while j < i
                    invariant
                        from <= j <= i < to <= lines.len(),
                        records == line_bytes(lines@).subrange(from as int, to as int),
                        line@ == records[i - from],
                        key@ == record_key(line@),
                        forall|a: int|
                            0 <= a < i - from ==> record_key_len(#[trigger] records[a]) is Some,
                        forall|a: int|
                            0 <= a < j - from ==> record_key(#[trigger] records[a]) != key@,
                    decreases i - j,
                {
                    let other = lines[j].as_str().as_bytes();
                    match key_length(other) {
                        None => {
                            assert(record_key_len(records[j - from]) is Some);
                            return false;
                        },
                        Some(n) => {
                            proof {
                                lemma_record_key_len(other@, n as int);
                            }
                            if bytes_eq(slice_subrange(other, 0, n), key) {
                                return false;
                            }
                        },
                    }
                    j += 1;
                }
            },
        }
        i += 1;
    }
    true
}

/// Finds the record with the key `key` in `lines[from..to]`, and gives
/// the line and the length of the key.
fn find_record(lines: &Vec<String>, from: usize, to: usize, key: &[u8]) -> (res: Option<usize>)
    requires
        from <= to <= lines.len(),
        records_are_distinct(line_bytes(lines@).subrange(from as int, to as int)),
    ensures
        match res {
            Some(i) => from <= i < to && lookup(
                line_bytes(lines@).subrange(from as int, to as int),
                key@,
            ) == Some(record_value(line_bytes(lines@)[i as int])) && record_key_len(
                line_bytes(lines@)[i as int],
            ) == Some(key@.len() as int),
            None => lookup(line_bytes(lines@).subrange(from as int, to as int), key@) is None,
        },
{
    let ghost records = line_bytes(lines@).subrange(from as int, to as int);
    let mut i: usize = from;
    while i < to
        invariant
            from <= i <= to <= lines.len(),
            records == line_bytes(lines@).subrange(from as int, to as int),
            records_are_distinct(records),
            forall|a: int| 0 <= a < i - from ==> !has_record(records, key@, a),
        decreases to - i,
    {
        let line = lines[i].as_str().as_bytes();
        if let Some(k) = key_length(line) {
            proof {
                lemma_record_key_len(line@, k as int);
            }
            if bytes_eq(slice_subrange(line, 0, k), key) {
                assert(has_record(records, key@, i - from));
                return Some(i);
            }
        }
        i += 1;
    }
    None
}

/// Reads a list of methods.
fn parse_methods(text: &[u8]) -> (res: Option<AuthMethodSet>)
    ensures
        match res {
            Some(set) => listed_methods(text@, 0, 0, Set::empty()) == Some(set@),
            None => listed_methods(text@, 0, 0, Set::empty()) is None,
        },
{
    let mut seen = AuthMethodSet::new();
    let mut start: usize = 0;
    let mut i: usize = 0;
    while i < text.len()
        invariant
            start <= i <= text.len(),
            listed_methods(text@, 0, 0, Set::empty()) == listed_methods(
                text@,
                start as int,
                i as int,
                seen@,
            ),
        decreases text.len() - i,
    {
        if text[i] == COMMA {
            match TorAuthMethod::from_bytes(slice_subrange(text, start, i)) {
                Some(m) => {
                    if !seen.insert(m) {
                        return None;
                    }
                },
                None => {
                    return None;
                },
            }
            start = i + 1;
        }
        i += 1;
    }
    match TorAuthMethod::from_bytes(slice_subrange(text, start, text.len())) {
        Some(m) => {
            if !seen.insert(m) {
                return None;
            }
            Some(seen)
        },
        None => None,
    }
}

/// Tells whether `b` is ASCII white space.
fn space(b: u8) -> (res: bool)
    ensures
        res == is_space(b),
{
    b == SPACE || (0x09 <= b && b <= 0x0d)
}

/// Finds `text` without the white space around it.
fn trim_range(text: &[u8]) -> (res: (usize, usize))
    ensures
        res.0 <= res.1 <= text.len(),
        text@.subrange(res.0 as int, res.1 as int) == trim(text@),
{
    let mut lo: usize = 0;
    assert(text@.skip(0) =~= text@);
    while lo < text.len() && space(text[lo])
        invariant
            lo <= text.len(),
            trim_start(text@) == trim_start(text@.skip(lo as int)),
        decreases text.len() - lo,
    {
        assert(text@.skip(lo as int).skip(1) =~= text@.skip(lo + 1));
        lo += 1;
    }
    let ghost head = text@.skip(lo as int);
    let mut hi: usize = text.len();
    while hi > lo && space(text[hi - 1])
        invariant
            lo <= hi <= text.len(),
            trim_end(head) == trim_end(text@.subrange(lo as int, hi as int)),
        decreases hi - lo,
    {
        assert(text@.subrange(lo as int, hi as int).drop_last() =~= text@.subrange(
            lo as int,
            hi - 1,
        ));
        hi -= 1;
    }
    (lo, hi)
}

/// Finds the first space of `text`.
fn find_space(text: &[u8]) -> (res: usize)
    ensures
        res == first_space(text@, 0),
        res <= text.len(),
{
    let mut i: usize = 0;
    while i < text.len() && text[i] != SPACE
        invariant
            i <= text.len(),
            first_space(text@, 0) == first_space(text@, i as int),
        decreases text.len() - i,
    {
        i += 1;
    }
    i
}

/// Reads the name of the cookie file from what stands behind the methods.
fn parse_cookie_file(rest: &[u8]) -> (res: Option<Option<String>>)
    ensures
        match res {
            Some(Some(path)) => cookie_file_of(rest@) == Some(Some(encode_utf8(path@))),
            Some(None) => cookie_file_of(rest@) == Some(None::<Seq<u8>>),
            None => cookie_file_of(rest@) is None,
        },
{
    let (lo, hi) = trim_range(rest);
    if lo == hi {
        return Some(None);
    }
    let text = slice_subrange(rest, lo, hi);
    match key_length(text) {
        None => None,
        Some(k) => {
            proof {
                lemma_record_key_len(text@, k as int);
            }
            if !bytes_eq(slice_subrange(text, 0, k), "COOKIEFILE".as_bytes()) {
                return None;
            }
            let encoded = slice_subrange(text, k + 1, text.len());
            let (end, path) = unquote_bytes(encoded);
            match end {
                Some(e) => {
                    if e + 1 != encoded.len() {
                        return None;
                    }
                    match str_from_utf8(path.as_slice()) {
                        Some(s) => Some(Some(s.to_owned())),
                        None => None,
                    }
                },
                None => None,
            }
        },
    }
}

/// Reads what the lines of a reply to `PROTOCOLINFO` say.
fn parse_protocol_info_lines(lines: &Vec<String>) -> (res: Option<TorPreAuthInfo>)
    ensures
        match res {
            Some(info) => protocol_info_lines(line_bytes(lines@)) == Some(info@),
            None => protocol_info_lines(line_bytes(lines@)) is None,
        },
{
    let n = lines.len();
    if n < 3 {
        return None;
    }
    if !bytes_eq(lines[0].as_str().as_bytes(), "PROTOCOLINFO 1".as_bytes()) {
        return None;
    }
    if !bytes_eq(lines[n - 1].as_str().as_bytes(), "OK".as_bytes()) {
        return None;
    }
    if !check_records(lines, 1, n - 1) {
        return None;
    }
    let auth_at = match find_record(lines, 1, n - 1, "AUTH METHODS".as_bytes()) {
        Some(i) => i,
        None => match find_record(lines, 1, n - 1, "METHODS".as_bytes()) {
            Some(i) => i,
            None => {
                return None;
            },
        },
    };
    let auth_line = lines[auth_at].as_str().as_bytes();
    let auth_key = match key_length(auth_line) {
        Some(k) => k,
        None => {
            return None;
        },
    };
    proof {
        lemma_record_key_len(auth_line@, auth_key as int);
    }
    let auth_len = auth_line.len();
    let auth = slice_subrange(auth_line, auth_key + 1, auth_len);
    let version_at = match find_record(lines, 1, n - 1, "VERSION Tor".as_bytes()) {
        Some(i) => i,
        None => {
            return None;
        },
    };
    let version_line = lines[version_at].as_str().as_bytes();
    let version_key = match key_length(version_line) {
        Some(k) => k,
        None => {
            return None;
        },
    };
    proof {
        lemma_record_key_len(version_line@, version_key as int);
    }
    let version_len = version_line.len();
    let version = slice_subrange(version_line, version_key + 1, version_len);
    let end = find_space(auth);
    let names = slice_subrange(auth, 0, end);
    let rest = slice_subrange(auth, end, auth.len());
    let auth_methods = match parse_methods(names) {
        Some(set) => set,
        None => {
            return None;
        },
    };
    let cookie_file = match parse_cookie_file(rest) {
        Some(file) => file,
        None => {
            return None;
        },
    };
    let (quote_end, decoded) = unquote_bytes(version);
    if quote_end.is_none() {
        return None;
    }
    let tor_version = match str_from_utf8(decoded.as_slice()) {
        Some(s) => s.to_owned(),
        None => {
            return None;
        },
    };
    Some(TorPreAuthInfo { tor_version, auth_methods, cookie_file })
}

/// Reads what a reply to `PROTOCOLINFO` says.
pub fn parse_protocol_info(code: u16, lines: &Vec<String>) -> (res: Result<
    TorPreAuthInfo,
    ConnError,
>)
    ensures
        match res {
            Ok(info) => protocol_info(code, line_bytes(lines@)) == Ok::<PreAuthInfo, ConnError>(
                info@,
            ),
            Err(e) => protocol_info(code, line_bytes(lines@)) == Err::<PreAuthInfo, ConnError>(e),
        },
{
    if code != 250 {
        return Err(ConnError::InvalidResponseCode(code));
    }
    match parse_protocol_info_lines(lines) {
        Some(info) => Ok(info),
        None => Err(ConnError::InvalidFormat),
    }
}

} // verus!

//! The replies to `GETCONF` and `GETINFO`.
//!
//! Both replies are lists of `KEY=VALUE` lines in which a key may come more
//! than once. They are read into [`KeyedValues`]: the keys in the order in
//! which they first come, each with its values in the order in which they
//! come.

use crate::control::conn::conn::{line_bytes, ConnError};
use crate::control::conn::protocol_info::{
    lemma_record_key_len, record_key, record_key_len, record_value,
};
use crate::utils::key_value::parse_single_key_value;
use crate::utils::quoted::{unquote, unquote_string};
use crate::utils::text::bytes_eq;
use crate::utils::EQUALS;
use vstd::prelude::*;
use vstd::string::StringSliceAdditionalSpecFns;
use vstd::utf8::{encode_utf8, valid_utf8};

verus! {

/// A value as bytes. A missing value stands for the default of an option.
pub type ValueModel = Option<Seq<u8>>;

/// A key as bytes with its values.
pub type Entry = (Seq<u8>, Seq<ValueModel>);

/// What can be a value of [`KeyedValues`].
pub trait Value {
    /// The value as bytes.
    spec fn bytes(&self) -> ValueModel;
}

impl Value for String {
    open spec fn bytes(&self) -> ValueModel {
        Some(encode_utf8(self@))
    }
}

impl Value for Option<String> {
    open spec fn bytes(&self) -> ValueModel {
        match self {
            Some(text) => Some(encode_utf8(text@)),
            None => None,
        }
    }
}

/// `entries` holds the key `key` at `i`.
pub open spec fn key_at(entries: Seq<Entry>, key: Seq<u8>, i: int) -> bool {
    0 <= i < entries.len() && entries[i].0 == key
}

/// The place of the key `key` in `entries`.
pub open spec fn position(entries: Seq<Entry>, key: Seq<u8>) -> Option<int> {
    if exists|i: int| key_at(entries, key, i) {
        Some(choose|i: int| key_at(entries, key, i))
    } else {
        None
    }
}

/// `entries` with one more value under `key`: behind the values that the
/// key has, or with the key as a new last one.
pub open spec fn added(entries: Seq<Entry>, key: Seq<u8>, value: ValueModel) -> Seq<Entry> {
    match position(entries, key) {
        Some(i) => entries.update(i, (key, entries[i].1.push(value))),
        None => entries.push((key, seq![value])),
    }
}

/// The pairs of a key and a value, gathered by key.
pub open spec fn grouped(pairs: Seq<(Seq<u8>, ValueModel)>) -> Seq<Entry>
    decreases pairs.len(),
{
    if pairs.len() == 0 {
        Seq::empty()
    } else {
        added(grouped(pairs.drop_last()), pairs.last().0, pairs.last().1)
    }
}

/// No key comes twice.
pub open spec fn distinct_keys(entries: Seq<Entry>) -> bool {
    forall|i: int, j: int|
        0 <= i < j < entries.len() ==> (#[trigger] entries[i]).0 != (#[trigger] entries[j]).0
}

/// The values that the pairs hold under `key`, in their order.
pub open spec fn values_under(pairs: Seq<(Seq<u8>, ValueModel)>, key: Seq<u8>) -> Seq<ValueModel>
    decreases pairs.len(),
{
    if pairs.len() == 0 {
        Seq::empty()
    } else if pairs.last().0 == key {
        values_under(pairs.drop_last(), key).push(pairs.last().1)
    } else {
        values_under(pairs.drop_last(), key)
    }
}

/// What gathering by key gives: no key comes twice, each key holds the
/// values that the pairs hold under it, in their order, and a key that is
/// missing has no value in the pairs.
pub proof fn lemma_grouped(pairs: Seq<(Seq<u8>, ValueModel)>)
    ensures
        distinct_keys(grouped(pairs)),
        forall|i: int|
            0 <= i < grouped(pairs).len() ==> (#[trigger] grouped(pairs)[i]).1 == values_under(
                pairs,
                grouped(pairs)[i].0,
            ),
        forall|key: Seq<u8>|
            position(grouped(pairs), key) is None ==> (#[trigger] values_under(pairs, key)).len()
                == 0,
        forall|key: Seq<u8>|
            position(grouped(pairs), key) is Some ==> (#[trigger] values_under(pairs, key)).len()
                > 0,
    decreases pairs.len(),
{
    if pairs.len() > 0 {
        let before = pairs.drop_last();
        let had = grouped(before);
        let key = pairs.last().0;
        let value = pairs.last().1;
        let now = grouped(pairs);
        lemma_grouped(before);
        match position(had, key) {
            Some(at) => {
                assert forall|other: Seq<u8>| position(now, other) is None implies (
                #[trigger] values_under(pairs, other)).len() == 0 by {
                    if position(had, other) is Some {
                        let c = choose|c: int| key_at(had, other, c);
                        assert(key_at(now, other, c));
                    }
                    assert(values_under(before, other).len() == 0);
                }
                assert forall|other: Seq<u8>| position(now, other) is Some implies (
                #[trigger] values_under(pairs, other)).len() > 0 by {
                    let c = choose|c: int| key_at(now, other, c);
                    assert(key_at(had, other, c));
                }
            },
            None => {
                assert(values_under(before, key).len() == 0);
                assert forall|i: int| 0 <= i < now.len() implies (#[trigger] now[i]).1
                    == values_under(pairs, now[i].0) by {
                    if i != had.len() {
                        assert(!key_at(had, key, i));
                    }
                }
                assert forall|other: Seq<u8>| position(now, other) is None implies (
                #[trigger] values_under(pairs, other)).len() == 0 by {
                    if position(had, other) is Some {
                        let c = choose|c: int| key_at(had, other, c);
                        assert(key_at(now, other, c));
                    }
                    assert(key_at(now, key, had.len() as int));
                    assert(values_under(before, other).len() == 0);
                }
                assert forall|other: Seq<u8>| position(now, other) is Some implies (
                #[trigger] values_under(pairs, other)).len() > 0 by {
                    let c = choose|c: int| key_at(now, other, c);
                    if c < had.len() {
                        assert(key_at(had, other, c));
                    }
                }
            },
        }
    }
}

/// Values under keys. A key may have many values.
#[derive(Debug, Clone)]
pub struct KeyedValues<V> {
    keys: Vec<String>,
    values: Vec<Vec<V>>,
}

impl<V: Value> KeyedValues<V> {
    /// The keys with their values, as bytes.
    pub closed spec fn entries(&self) -> Seq<Entry> {
        Seq::new(
            self.keys@.len(),
            |i: int|
                (
                    encode_utf8(self.keys@[i]@),
                    Seq::new(self.values@[i]@.len(), |j: int| self.values@[i]@[j].bytes()),
                ),
        )
    }

    /// The values under the key at `i`.
    pub closed spec fn values_at(&self, i: int) -> Seq<V> {
        self.values@[i]@
    }

    /// Every key has its values, and no key comes twice.
    pub closed spec fn wf(&self) -> bool {
        self.keys@.len() == self.values@.len() && distinct_keys(self.entries())
    }

    /// The bytes of the values under the key at `i` are those of the
    /// entry.
    pub proof fn lemma_values_at(&self, i: int)
        requires
            0 <= i < self.entries().len(),
            self.wf(),
        ensures
            self.values_at(i).len() == self.entries()[i].1.len(),
            forall|j: int|
                0 <= j < self.values_at(i).len() ==> (#[trigger] self.values_at(i)[j]).bytes()
                    == self.entries()[i].1[j],
    {
    }

    /// No values.
    pub fn new() -> (res: KeyedValues<V>)
        ensures
            res.wf(),
            res.entries() == Seq::<Entry>::empty(),
    {
        let res = KeyedValues { keys: Vec::new(), values: Vec::new() };
        res
    }

    /// The number of keys.
    pub fn len(&self) -> (res: usize)
        requires
            self.wf(),
        ensures
            res == self.entries().len(),
    {
        self.keys.len()
    }

    /// Finds the place of `key`.
    pub fn find(&self, key: &[u8]) -> (res: Option<usize>)
        requires
            self.wf(),
        ensures
            match res {
                Some(i) => position(self.entries(), key@) == Some(i as int) && key_at(
                    self.entries(),
                    key@,
                    i as int,
                ),
                None => position(self.entries(), key@) is None,
            },
    {
        let mut i: usize = 0;
        while i < self.keys.len()
            invariant
                i <= self.keys.len(),
                self.wf(),
                forall|j: int| 0 <= j < i ==> !key_at(self.entries(), key@, j),
            decreases self.keys.len() - i,
        {
            if bytes_eq(self.keys[i].as_str().as_bytes(), key) {
                assert(key_at(self.entries(), key@, i as int));
                return Some(i);
            }
            i += 1;
        }
        None
    }

    /// The values under `key`, if there are any.
    pub fn get(&self, key: &str) -> (res: Option<&Vec<V>>)
        requires
            self.wf(),
        ensures
            match res {
                Some(values) => position(self.entries(), key.spec_bytes()) matches Some(i)
                    && values@ == self.values_at(i),
                None => position(self.entries(), key.spec_bytes()) is None,
            },
    {
        match self.find(key.as_bytes()) {
            Some(i) => Some(&self.values[i]),
            None => None,
        }
    }

    /// The key at `i`.
    pub fn key(&self, i: usize) -> (res: &String)
        requires
            self.wf(),
            i < self.entries().len(),
        ensures
            encode_utf8(res@) == self.entries()[i as int].0,
    {
        &self.keys[i]
    }

    /// The values under the key at `i`.
    pub fn values(&self, i: usize) -> (res: &Vec<V>)
        requires
            self.wf(),
            i < self.entries().len(),
        ensures
            res@ == self.values_at(i as int),
    {
        &self.values[i]
    }

    /// Puts one more value under `key`.
    pub fn insert(&mut self, key: String, value: V)
        requires
            old(self).wf(),
        ensures
            final(self).wf(),
            final(self).entries() == added(old(self).entries(), encode_utf8(key@), value.bytes()),
    {
        let ghost before = self.entries();
        let ghost key_bytes = encode_utf8(key@);
        match self.find(key.as_str().as_bytes()) {
            Some(i) => {
                let mut column: Vec<V> = Vec::new();
                core::mem::swap(&mut self.values[i], &mut column);
                column.push(value);
                self.values.set(i, column);
                proof {
                    assert(self.entries() =~= before.update(
                        i as int,
                        (key_bytes, before[i as int].1.push(value.bytes())),
                    )) by {
                        assert forall|k: int| 0 <= k < before.len() implies self.entries()[k]
                            == before.update(
                            i as int,
                            (key_bytes, before[i as int].1.push(value.bytes())),
                        )[k] by {}
                    }
                }
            },
            None => {
                let mut column: Vec<V> = Vec::new();
                column.push(value);
                self.keys.push(key);
                self.values.push(column);
                proof {
                    assert(self.entries() =~= before.push((key_bytes, seq![value.bytes()]))) by {
                        assert forall|k: int| 0 <= k < self.entries().len() implies self.entries()[k]
                            == before.push((key_bytes, seq![value.bytes()]))[k] by {}
                    }
                    assert forall|a: int, b: int| 0 <= a < b < self.entries().len() implies (
                    #[trigger] self.entries()[a]).0 != (#[trigger] self.entries()[b]).0 by {
                        if b == before.len() {
                            assert(!key_at(before, key_bytes, a));
                        }
                    }
                }
            },
        }
    }

    /// Takes the last key and its values out.
    pub fn pop(&mut self) -> (res: Option<(String, Vec<V>)>)
        requires
            old(self).wf(),
        ensures
            final(self).wf(),
            match res {
                Some((key, values)) => {
                    &&& old(self).entries().len() > 0
                    &&& final(self).entries() == old(self).entries().drop_last()
                    &&& encode_utf8(key@) == old(self).entries().last().0
                    &&& values@ == old(self).values_at(old(self).entries().len() - 1)
                },
                None => old(self).entries().len() == 0 && final(self).entries() == old(
                    self,
                ).entries(),
            },
    {
        let ghost before = self.entries();
        match self.keys.pop() {
            Some(key) => {
                let values = self.values.pop().unwrap();
                assert(self.entries() =~= before.drop_last());
                Some((key, values))
            },
            None => None,
        }
    }
}

/// The records of the lines, each a key and its value, if every line is a
/// record.
pub open spec fn info_pairs(lines: Seq<Seq<u8>>) -> Option<Seq<(Seq<u8>, ValueModel)>> {
    if forall|i: int| 0 <= i < lines.len() ==> record_key_len(#[trigger] lines[i]) is Some {
        Some(
            Seq::new(
                lines.len(),
                |i: int| (record_key(lines[i]), Some(record_value(lines[i]))),
            ),
        )
    } else {
        None
    }
}

/// What a reply to `GETINFO` says: the status is 250, the last line is
/// `OK`, and every other line is a record. The values are taken as they
/// are.
pub open spec fn get_info_response(code: u16, lines: Seq<Seq<u8>>) -> Result<
    Seq<Entry>,
    ConnError,
> {
    if code != 250 {
        Err(ConnError::InvalidResponseCode(code))
    } else if lines.len() == 0 || lines.last() != "OK".spec_bytes() {
        Err(ConnError::InvalidFormat)
    } else {
        match info_pairs(lines.drop_last()) {
            Some(pairs) => Ok(grouped(pairs)),
            None => Err(ConnError::InvalidFormat),
        }
    }
}

/// The line holds an equals sign.
pub open spec fn has_equals(line: Seq<u8>) -> bool {
    exists|i: int| 0 <= i < line.len() && line[i] == EQUALS
}

/// The value that stands in a reply to `GETCONF`: the text as it is when
/// it is not quoted, the decoded text when it is a quoted string and
/// nothing more. Anything else is no value.
pub open spec fn conf_value(text: Seq<u8>) -> Option<Seq<u8>> {
    if (unquote(text).0 is None || unquote(text).0 == Some(text.len() - 1)) && valid_utf8(
        unquote(text).1,
    ) {
        Some(unquote(text).1)
    } else {
        None
    }
}

/// What a line of a reply to `GETCONF` says: an option at its default,
/// when the line holds no equals sign, or an option and its value.
pub open spec fn conf_pair(line: Seq<u8>) -> Option<(Seq<u8>, ValueModel)> {
    if !has_equals(line) {
        Some((line, None))
    } else {
        match record_key_len(line) {
            Some(k) => match conf_value(line.skip(k + 1)) {
                Some(value) => Some((line.take(k), Some(value))),
                None => None,
            },
            None => None,
        }
    }
}

/// What the lines of a reply to `GETCONF` say, if every line says
/// something.
pub open spec fn conf_pairs(lines: Seq<Seq<u8>>) -> Option<Seq<(Seq<u8>, ValueModel)>> {
    if forall|i: int| 0 <= i < lines.len() ==> conf_pair(#[trigger] lines[i]) is Some {
        Some(Seq::new(lines.len(), |i: int| conf_pair(lines[i])->0))
    } else {
        None
    }
}

/// What a reply to `GETCONF` says.
pub open spec fn get_conf_response(code: u16, lines: Seq<Seq<u8>>) -> Result<
    Seq<Entry>,
    ConnError,
> {
    if code != 250 {
        Err(ConnError::InvalidResponseCode(code))
    } else {
        match conf_pairs(lines) {
            Some(pairs) => Ok(grouped(pairs)),
            None => Err(ConnError::InvalidFormat),
        }
    }
}

/// An ASCII letter in upper case, any other byte as it is.
pub open spec fn upper(b: u8) -> u8 {
    if 0x61 <= b <= 0x7a {
        (b - 0x20) as u8
    } else {
        b
    }
}

/// Two texts are the same but for the case of their ASCII letters.
pub open spec fn same_ignoring_case(a: Seq<u8>, b: Seq<u8>) -> bool {
    a.len() == b.len() && forall|i: int| 0 <= i < a.len() ==> upper(#[trigger] a[i]) == upper(b[i])
}

/// The values of the option `option` in what a reply to `GETCONF` says:
/// the reply must hold this option alone, in any case of its letters.
pub open spec fn conf_values(entries: Seq<Entry>, option: Seq<u8>) -> Result<
    Seq<ValueModel>,
    ConnError,
> {
    if entries.len() == 1 && same_ignoring_case(entries[0].0, option) {
        Ok(entries[0].1)
    } else {
        Err(ConnError::InvalidFormat)
    }
}

/// What was asked for: each key with as many values as it was asked for.
pub open spec fn asked(options: Seq<Seq<u8>>) -> Seq<Entry> {
    grouped(Seq::new(options.len(), |i: int| (options[i], None::<Seq<u8>>)))
}

/// `entries` answers what was asked for: it holds the keys that were
/// asked for and no others, each with as many values as it was asked for.
pub open spec fn answers(entries: Seq<Entry>, options: Seq<Seq<u8>>) -> bool {
    &&& entries.len() == asked(options).len()
    &&& forall|i: int|
        0 <= i < asked(options).len() ==> (position(entries, (#[trigger] asked(options)[i]).0)
            matches Some(j) && entries[j].1.len() == asked(options)[i].1.len())
}

/// The one value that answers a request for the one key `option`.
pub open spec fn single_value(entries: Seq<Entry>) -> Result<ValueModel, ConnError> {
    if entries.len() == 1 && entries[0].1.len() == 1 {
        Ok(entries[0].1[0])
    } else {
        Err(ConnError::InvalidFormat)
    }
}

/// Reads a reply to `GETINFO`.
pub fn parse_get_info_response(code: u16, lines: &Vec<String>) -> (res: Result<
    KeyedValues<String>,
    ConnError,
>)
    ensures
        match res {
            Ok(map) => map.wf() && get_info_response(code, line_bytes(lines@)) == Ok::<
                Seq<Entry>,
                ConnError,
            >(map.entries()),
            Err(e) => get_info_response(code, line_bytes(lines@)) == Err::<Seq<Entry>, ConnError>(
                e,
            ),
        },
{
    if code != 250 {
        return Err(ConnError::InvalidResponseCode(code));
    }
    let n = lines.len();
    if n == 0 {
        return Err(ConnError::InvalidFormat);
    }
    if !bytes_eq(lines[n - 1].as_str().as_bytes(), "OK".as_bytes()) {
        return Err(ConnError::InvalidFormat);
    }
    let ghost all = line_bytes(lines@);
    let ghost records = all.drop_last();
    let ghost pairs = Seq::new(
        records.len(),
        |i: int| (record_key(records[i]), Some(record_value(records[i]))),
    );
    let mut result: KeyedValues<String> = KeyedValues::new();
    let mut i: usize = 0;
    while i < n - 1
        invariant
            i <= n - 1,
            n == lines.len(),
            code == 250,
            all == line_bytes(lines@),
            all.last() == "OK".spec_bytes(),
            records == all.drop_last(),
            pairs == Seq::new(
                records.len(),
                |i: int| (record_key(records[i]), Some(record_value(records[i]))),
            ),
            result.wf(),
            result.entries() == grouped(pairs.take(i as int)),
            forall|j: int| 0 <= j < i ==> record_key_len(#[trigger] records[j]) is Some,
        decreases n - 1 - i,
    {
        let line = lines[i].as_str();
        match parse_single_key_value(line) {
            Ok((key, value)) => {
                proof {
                    lemma_record_key_len(line.spec_bytes(), key.spec_bytes().len() as int);
                    assert(pairs.take(i + 1).drop_last() =~= pairs.take(i as int));
                }
                result.insert(key.to_owned(), value.to_owned());
            },
            Err(_) => {
                assert(record_key_len(records[i as int]) is None);
                return Err(ConnError::InvalidFormat);
            },
        }
        i += 1;
    }
    assert(pairs.take(i as int) =~= pairs);
    Ok(result)
}

/// Tells whether `line` holds an equals sign.
fn contains_equals(line: &[u8]) -> (res: bool)
    ensures
        res == has_equals(line@),
{
    let mut i: usize = 0;
    while i < line.len()
        invariant
            i <= line.len(),
            forall|j: int| 0 <= j < i ==> line@[j] != EQUALS,
        decreases line.len() - i,
    {
        if line[i] == EQUALS {
            return true;
        }
        i += 1;
    }
    false
}

/// Reads what a line of a reply to `GETCONF` says.
fn parse_conf_line(line: &str) -> (res: Option<(String, Option<String>)>)
    ensures
        match res {
            Some((key, value)) => conf_pair(line.spec_bytes()) == Some(
                (encode_utf8(key@), value.bytes()),
            ),
            None => conf_pair(line.spec_bytes()) is None,
        },
{
    if !contains_equals(line.as_bytes()) {
        return Some((line.to_owned(), None));
    }
    match parse_single_key_value(line) {
        Ok((key, value)) => {
            proof {
                lemma_record_key_len(line.spec_bytes(), key.spec_bytes().len() as int);
            }
            let len = value.as_bytes().len();
            match unquote_string(value) {
                (Some(offset), Ok(unquoted)) => {
                    if offset + 1 == len {
                        Some((key.to_owned(), Some(unquoted)))
                    } else {
                        None
                    }
                },
                (None, Ok(unquoted)) => Some((key.to_owned(), Some(unquoted))),
                _ => None,
            }
        },
        Err(_) => {
            None
        },
    }
}

/// Reads a reply to `GETCONF`.
pub fn parse_get_conf_response(code: u16, lines: &Vec<String>) -> (res: Result<
    KeyedValues<Option<String>>,
    ConnError,
>)
    ensures
        match res {
            Ok(map) => map.wf() && get_conf_response(code, line_bytes(lines@)) == Ok::<
                Seq<Entry>,
                ConnError,
            >(map.entries()),
            Err(e) => get_conf_response(code, line_bytes(lines@)) == Err::<Seq<Entry>, ConnError>(
                e,
            ),
        },
{
    if code != 250 {
        return Err(ConnError::InvalidResponseCode(code));
    }
    let ghost all = line_bytes(lines@);
    let ghost pairs = Seq::new(all.len(), |i: int| conf_pair(all[i])->0);
    let mut result: KeyedValues<Option<String>> = KeyedValues::new();
    let mut i: usize = 0;
    while i < lines.len()
        invariant
            i <= lines.len(),
            code == 250,
            all == line_bytes(lines@),
            pairs == Seq::new(all.len(), |i: int| conf_pair(all[i])->0),
            result.wf(),
            result.entries() == grouped(pairs.take(i as int)),
            forall|j: int| 0 <= j < i ==> conf_pair(#[trigger] all[j]) is Some,
        decreases lines.len() - i,
    {
        let line = lines[i].as_str();
        assert(line.spec_bytes() == all[i as int]);
        match parse_conf_line(line) {
            Some((key, value)) => {
                proof {
                    assert(pairs.take(i + 1).drop_last() =~= pairs.take(i as int));
                }
                result.insert(key, value);
            },
            None => {
                return Err(ConnError::InvalidFormat);
            },
        }
        i += 1;
    }
    assert(pairs.take(i as int) =~= pairs);
    Ok(result)
}

} // verus!

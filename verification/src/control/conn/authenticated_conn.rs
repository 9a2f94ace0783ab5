//! A connection that is authenticated.
//!
//! Each command is written as one line and answered by one reply. Between
//! a command and its reply Tor may send events, replies with the status
//! 650. They are set aside in the order in which they come, and the first
//! reply with another status is the answer.

use crate::control::conn::commands::{
    add_onion_v2_command, add_onion_v2_request, add_onion_v3_command, add_onion_v3_request,
    all_keywords, all_options, conf_keys_are_valid, conf_options, del_onion_command,
    del_onion_request, get_conf_command, get_conf_request, get_info_command, get_info_request,
    listeners_are_valid, listeners_of, resolve_command, resolve_request, reverse_resolve_command,
    reverse_resolve_request, set_conf_command, set_conf_request, set_events_command,
    set_events_request, texts,
};
use crate::control::conn::conn::{
    frame, line_bytes, reply_model, AuthenticatedConnError, Conn, ConnError, Outcome, ReplyModel,
};
use crate::control::conn::responses::{
    answers, asked, conf_values, get_conf_response, get_info_response, parse_get_conf_response,
    parse_get_info_response, position, same_ignoring_case, single_value, upper, Entry, KeyedValues,
    Value, ValueModel,
};
use crate::control::conn::unauthenticated_conn::{expect_250, status_250};
use crate::control::primitives::event::AsyncEvent;
use crate::onion::v2::key::TorSecretKeyV2;
use crate::onion::v3::key::TorSecretKeyV3;
use crate::utils::{is_hostname, is_keyword, is_service_id};
use vstd::prelude::*;
use vstd::string::StringSliceAdditionalSpecFns;

verus! {

/// The status of an event.
pub const ASYNC_EVENT_CODE: u16 = 650;

/// A reply as bytes.
pub type ReplyBytes = (u16, Seq<Seq<u8>>);

/// The events as bytes.
pub open spec fn event_model(events: Seq<AsyncEvent>) -> Seq<ReplyBytes> {
    Seq::new(events.len(), |i: int| (events[i].code, line_bytes(events[i].lines@)))
}

/// What comes of reading up to the answer of a command.
pub struct Demux {
    /// The events in front of the answer.
    pub events: Seq<ReplyBytes>,
    /// The answer, or why there is none.
    pub reply: ReplyModel,
    /// What is left unread behind the answer.
    pub rest: Seq<u8>,
}

/// Reads replies from `unread` up to the first that is no event.
pub open spec fn next_response(unread: Seq<u8>, limit: nat) -> Demux
    decreases unread.len(),
{
    match frame(unread, limit) {
        Outcome::Reply { code, lines, consumed } => if code == ASYNC_EVENT_CODE && 0 < consumed
            <= unread.len() {
            let next = next_response(unread.skip(consumed as int), limit);
            Demux { events: seq![(code, lines)] + next.events, ..next }
        } else {
            Demux {
                events: Seq::empty(),
                reply: Ok((code, lines)),
                rest: unread.skip(consumed as int),
            }
        },
        Outcome::Starved(_) => Demux {
            events: Seq::empty(),
            reply: Err(ConnError::IOError),
            rest: Seq::empty(),
        },
        Outcome::Fail(e) => Demux { events: Seq::empty(), reply: Err(e), rest: Seq::empty() },
    }
}

/// A reply, by what is to be done with it.
pub enum Dispatch {
    /// An event, which goes to whoever handles events. What stands behind
    /// it is looked at next.
    Event(AsyncEvent),
    /// The answer to the command that was written.
    Answer(u16, Vec<String>),
}

/// Tells what is to be done with a reply: a reply with the status 650 is an
/// event, any other the answer to the command.
pub fn dispatch(code: u16, lines: Vec<String>) -> (res: Dispatch)
    ensures
        match res {
            Dispatch::Event(event) => code == ASYNC_EVENT_CODE && event.code == code && event.lines
                == lines,
            Dispatch::Answer(c, l) => code != ASYNC_EVENT_CODE && c == code && l == lines,
        },
{
    if code == ASYNC_EVENT_CODE {
        Dispatch::Event(AsyncEvent { code, lines })
    } else {
        Dispatch::Answer(code, lines)
    }
}

/// What a reply to `GETCONF` for `option` gives.
pub open spec fn get_conf_result(reply: ReplyModel, option: Seq<u8>) -> Result<
    Seq<ValueModel>,
    ConnError,
> {
    match reply {
        Ok((code, lines)) => match get_conf_response(code, lines) {
            Ok(entries) => conf_values(entries, option),
            Err(e) => Err(e),
        },
        Err(e) => Err(e),
    }
}

/// What a reply to `GETINFO` for `options` gives: what the reply says, if
/// that answers what was asked for.
pub open spec fn get_info_result(reply: ReplyModel, options: Seq<Seq<u8>>) -> Result<
    Seq<Entry>,
    ConnError,
> {
    match reply {
        Ok((code, lines)) => match get_info_response(code, lines) {
            Ok(entries) => if answers(entries, options) {
                Ok(entries)
            } else {
                Err(ConnError::InvalidFormat)
            },
            Err(e) => Err(e),
        },
        Err(e) => Err(e),
    }
}

/// What a reply to `GETINFO` for the one key `option` gives.
pub open spec fn get_info_single(reply: ReplyModel, option: Seq<u8>) -> Result<
    ValueModel,
    ConnError,
> {
    match get_info_result(reply, seq![option]) {
        Ok(entries) => single_value(entries),
        Err(e) => Err(e),
    }
}

/// The values as bytes.
pub open spec fn values_model<V: Value>(values: Seq<V>) -> Seq<ValueModel> {
    Seq::new(values.len(), |i: int| values[i].bytes())
}

/// A connection after authentication.
pub struct AuthenticatedConn {
    conn: Conn,
    events: Vec<AsyncEvent>,
}

/// The connection `after` is `before` with `request` written and the
/// replies up to the answer read: the events in front of the answer are
/// set aside behind those that were, and what is behind the answer is left
/// unread.
pub open spec fn exchanged(before: AuthenticatedConn, after: AuthenticatedConn, request: Seq<u8>)
    -> bool {
    let turn = next_response(before.conn().unread(), before.conn().limit());
    &&& after.wf()
    &&& after.conn().limit() == before.conn().limit()
    &&& after.conn().written() == before.conn().written() + request
    &&& event_model(after.pending_events()) == event_model(before.pending_events()) + turn.events
    &&& turn.reply is Ok ==> after.conn().unread() == turn.rest
}

/// The answer that `before` holds for the next command.
pub open spec fn answer(before: AuthenticatedConn) -> ReplyModel {
    next_response(before.conn().unread(), before.conn().limit()).reply
}

/// Tells whether two texts are the same but for the case of their ASCII
/// letters.
fn eq_ignoring_case(a: &[u8], b: &[u8]) -> (res: bool)
    ensures
        res == same_ignoring_case(a@, b@),
{
    if a.len() != b.len() {
        return false;
    }
    let mut i: usize = 0;
    while i < a.len()
        invariant
            a.len() == b.len(),
            i <= a.len(),
            forall|j: int| 0 <= j < i ==> upper(#[trigger] a@[j]) == upper(b@[j]),
        decreases a.len() - i,
    {
        let x = if 0x61 <= a[i] && a[i] <= 0x7a {
            a[i] - 0x20
        } else {
            a[i]
        };
        let y = if 0x61 <= b[i] && b[i] <= 0x7a {
            b[i] - 0x20
        } else {
            b[i]
        };
        if x != y {
            return false;
        }
        i += 1;
    }
    true
}

/// Takes the values of `option` from what a reply to `GETCONF` says.
pub fn select_conf_values(map: KeyedValues<Option<String>>, option: &str) -> (res: Result<
    Vec<Option<String>>,
    ConnError,
>)
    requires
        map.wf(),
    ensures
        match res {
            Ok(values) => conf_values(map.entries(), option.spec_bytes()) == Ok::<
                Seq<ValueModel>,
                ConnError,
            >(values_model(values@)),
            Err(e) => conf_values(map.entries(), option.spec_bytes()) == Err::<
                Seq<ValueModel>,
                ConnError,
            >(e),
        },
{
    let ghost whole = map.entries();
    let mut map = map;
    if map.len() != 1 {
        return Err(ConnError::InvalidFormat);
    }
    proof {
        map.lemma_values_at(0);
    }
    match map.pop() {
        Some((key, values)) => {
            if eq_ignoring_case(key.as_str().as_bytes(), option.as_bytes()) {
                assert(values_model(values@) =~= whole[0].1);
                Ok(values)
            } else {
                Err(ConnError::InvalidFormat)
            }
        },
        None => Err(ConnError::InvalidFormat),
    }
}

/// Takes the one value from what a reply to `GETINFO` says, where one key
/// was asked for: there is one key with one value, or the reply is
/// refused.
pub fn select_single_value(map: KeyedValues<String>) -> (res: Result<String, ConnError>)
    requires
        map.wf(),
    ensures
        match res {
            Ok(value) => single_value(map.entries()) == Ok::<ValueModel, ConnError>(value.bytes()),
            Err(e) => single_value(map.entries()) == Err::<ValueModel, ConnError>(e),
        },
{
    let mut map = map;
    if map.len() != 1 {
        return Err(ConnError::InvalidFormat);
    }
    proof {
        map.lemma_values_at(0);
    }
    match map.pop() {
        Some((_key, mut values)) => {
            if values.len() != 1 {
                return Err(ConnError::InvalidFormat);
            }
            match values.pop() {
                Some(value) => Ok(value),
                None => Err(ConnError::InvalidFormat),
            }
        },
        None => Err(ConnError::InvalidFormat),
    }
}

/// Reads the reply to `GETCONF` for `option`.
pub fn read_conf_values(code: u16, lines: &Vec<String>, option: &str) -> (res: Result<
    Vec<Option<String>>,
    ConnError,
>)
    ensures
        match res {
            Ok(values) => get_conf_result(Ok((code, line_bytes(lines@))), option.spec_bytes())
                == Ok::<Seq<ValueModel>, ConnError>(values_model(values@)),
            Err(e) => get_conf_result(Ok((code, line_bytes(lines@))), option.spec_bytes()) == Err::<
                Seq<ValueModel>,
                ConnError,
            >(e),
        },
{
    match parse_get_conf_response(code, lines) {
        Ok(map) => select_conf_values(map, option),
        Err(e) => Err(e),
    }
}

/// Reads the reply to `GETINFO` for `options`.
pub fn read_info(code: u16, lines: &Vec<String>, options: &[&str]) -> (res: Result<
    KeyedValues<String>,
    ConnError,
>)
    ensures
        match res {
            Ok(map) => map.wf() && get_info_result(
                Ok((code, line_bytes(lines@))),
                texts(options@),
            ) == Ok::<Seq<Entry>, ConnError>(map.entries()),
            Err(e) => get_info_result(Ok((code, line_bytes(lines@))), texts(options@)) == Err::<
                Seq<Entry>,
                ConnError,
            >(e),
        },
{
    let map = match parse_get_info_response(code, lines) {
        Ok(map) => map,
        Err(e) => {
            return Err(e);
        },
    };
    if !check_answers(&map, options) {
        return Err(ConnError::InvalidFormat);
    }
    Ok(map)
}

/// Tells whether what a reply to `GETINFO` says answers what was asked
/// for.
pub fn check_answers(map: &KeyedValues<String>, options: &[&str]) -> (res: bool)
    requires
        map.wf(),
    ensures
        res == answers(map.entries(), texts(options@)),
{
    let ghost model = texts(options@);
    let ghost pairs = Seq::new(model.len(), |i: int| (model[i], None::<Seq<u8>>));
    let mut wanted: KeyedValues<Option<String>> = KeyedValues::new();
    let mut i: usize = 0;
    while i < options.len()
        invariant
            i <= options.len(),
            model == texts(options@),
            pairs == Seq::new(model.len(), |i: int| (model[i], None::<Seq<u8>>)),
            wanted.wf(),
            wanted.entries() == crate::control::conn::responses::grouped(pairs.take(i as int)),
        decreases options.len() - i,
    {
        proof {
            assert(pairs.take(i + 1).drop_last() =~= pairs.take(i as int));
        }
        wanted.insert(options[i].to_owned(), None);
        i += 1;
    }
    assert(pairs.take(i as int) =~= pairs);
    if map.len() != wanted.len() {
        return false;
    }
    let count = wanted.len();
    let mut k: usize = 0;
    while k < count
        invariant
            k <= count,
            count == wanted.entries().len(),
            model == texts(options@),
            map.wf(),
            wanted.wf(),
            wanted.entries() == asked(model),
            map.entries().len() == wanted.entries().len(),
            forall|a: int|
                0 <= a < k ==> (position(map.entries(), (#[trigger] asked(model)[a]).0)
                    matches Some(j) && map.entries()[j].1.len() == asked(model)[a].1.len()),
        decreases count - k,
    {
        let key = wanted.key(k);
        match map.find(key.as_str().as_bytes()) {
            Some(j) => {
                proof {
                    map.lemma_values_at(j as int);
                    wanted.lemma_values_at(k as int);
                }
                if map.values(j).len() != wanted.values(k).len() {
                    return false;
                }
            },
            None => {
                return false;
            },
        }
        k += 1;
    }
    true
}

impl AuthenticatedConn {
    /// The transport of the connection.
    pub closed spec fn conn(&self) -> Conn {
        self.conn
    }

    /// The events that were read and not taken yet.
    pub closed spec fn pending_events(&self) -> Seq<AsyncEvent> {
        self.events@
    }

    /// The transport is well formed.
    pub open spec fn wf(&self) -> bool {
        self.conn().wf()
    }

    /// An authenticated connection over `conn`.
    pub fn from(conn: Conn) -> (res: AuthenticatedConn)
        requires
            conn.wf(),
        ensures
            res.wf(),
            res.conn() == conn,
            res.pending_events().len() == 0,
    {
        AuthenticatedConn { conn, events: Vec::new() }
    }

    /// Puts in bytes that the peer has sent.
    pub fn push_input(&mut self, data: &[u8])
        requires
            old(self).wf(),
        ensures
            final(self).wf(),
            final(self).conn().unread() == old(self).conn().unread() + data@,
            final(self).conn().written() == old(self).conn().written(),
            final(self).conn().limit() == old(self).conn().limit(),
            final(self).pending_events() == old(self).pending_events(),
    {
        self.conn.push_input(data);
    }

    /// Takes out the bytes written so far.
    pub fn take_output(&mut self) -> (res: Vec<u8>)
        requires
            old(self).wf(),
        ensures
            final(self).wf(),
            res@ == old(self).conn().written(),
            final(self).conn().written() == Seq::<u8>::empty(),
            final(self).conn().unread() == old(self).conn().unread(),
            final(self).conn().limit() == old(self).conn().limit(),
            final(self).pending_events() == old(self).pending_events(),
    {
        self.conn.take_output()
    }

    /// Takes out the events that were set aside, in the order in which
    /// they came.
    pub fn take_events(&mut self) -> (res: Vec<AsyncEvent>)
        ensures
            res@ == old(self).pending_events(),
            final(self).pending_events().len() == 0,
            final(self).conn() == old(self).conn(),
    {
        let mut out: Vec<AsyncEvent> = Vec::new();
        core::mem::swap(&mut self.events, &mut out);
        out
    }

    /// Reads replies up to the first that is no event, and sets the
    /// events aside.
    pub fn recv_response(&mut self) -> (res: Result<(u16, Vec<String>), ConnError>)
        requires
            old(self).wf(),
        ensures
            exchanged(*old(self), *final(self), Seq::empty()),
            reply_model(res) == answer(*old(self)),
    {
        let ghost first = self.conn.unread();
        let ghost had = event_model(self.events@);
        let ghost written = self.conn.written();
        loop
            invariant
                self.wf(),
                self.conn.limit() == old(self).conn.limit(),
                self.conn.written() == written,
                written == old(self).conn.written(),
                had == event_model(old(self).events@),
                first == old(self).conn.unread(),
                ({
                    let total = next_response(first, self.conn.limit());
                    let here = next_response(self.conn.unread(), self.conn.limit());
                    &&& had + total.events == event_model(self.events@) + here.events
                    &&& total.reply == here.reply
                    &&& total.rest == here.rest
                }),
            decreases self.conn.unread().len(),
        {
            match self.conn.receive_data() {
                Ok((code, lines)) => match dispatch(code, lines) {
                    Dispatch::Event(event) => {
                        self.events.push(event);
                    },
                    Dispatch::Answer(code, lines) => {
                        return Ok((code, lines));
                    },
                },
                Err(e) => {
                    return Err(e);
                },
            }
        }
    }

    /// Writes a command and reads its answer.
    fn call(&mut self, request: &[u8]) -> (res: Result<(u16, Vec<String>), ConnError>)
        requires
            old(self).wf(),
        ensures
            exchanged(*old(self), *final(self), request@),
            reply_model(res) == answer(*old(self)),
    {
        let _ = self.conn.write_data(request);
        self.recv_response()
    }

    /// Writes a command that is answered with the status 250 and nothing
    /// else, and reads its answer.
    fn call_250(&mut self, request: &[u8]) -> (res: Result<(), ConnError>)
        requires
            old(self).wf(),
        ensures
            exchanged(*old(self), *final(self), request@),
            res == status_250(answer(*old(self))),
    {
        match self.call(request) {
            Ok((code, _)) => expect_250(code),
            Err(e) => Err(e),
        }
    }

    /// Sets options of the configuration, or sets them back to their
    /// defaults, with `SETCONF`.
    ///
    /// A keyword that is none is refused before anything is written, and
    /// for no options nothing is written at all.
    pub fn set_conf_multiple(&mut self, options: &[(&str, Option<&str>)]) -> (res: Result<
        (),
        ConnError,
    >)
        requires
            old(self).wf(),
        ensures
            final(self).wf(),
            if !conf_keys_are_valid(conf_options(options@)) {
                &&& res == Err::<(), ConnError>(
                    ConnError::AuthenticatedConnError(AuthenticatedConnError::InvalidKeywordValue),
                )
                &&& *final(self) == *old(self)
            } else if options@.len() == 0 {
                res == Ok::<(), ConnError>(()) && *final(self) == *old(self)
            } else {
                &&& exchanged(*old(self), *final(self), set_conf_command(conf_options(options@)))
                &&& res == status_250(answer(*old(self)))
            },
    {
        match set_conf_request(options) {
            Ok(Some(request)) => self.call_250(request.as_slice()),
            Ok(None) => Ok(()),
            Err(e) => Err(e),
        }
    }

    /// Sets one option of the configuration, or sets it back to its
    /// default.
    pub fn set_conf(&mut self, option: &str, value: Option<&str>) -> (res: Result<(), ConnError>)
        requires
            old(self).wf(),
        ensures
            final(self).wf(),
            if !is_keyword(option.spec_bytes()) {
                &&& res == Err::<(), ConnError>(
                    ConnError::AuthenticatedConnError(AuthenticatedConnError::InvalidKeywordValue),
                )
                &&& *final(self) == *old(self)
            } else {
                &&& exchanged(
                    *old(self),
                    *final(self),
                    set_conf_command(conf_options(seq![(option, value)])),
                )
                &&& res == status_250(answer(*old(self)))
            },
    {
        let options = [(option, value)];
        assert(options@ =~= seq![(option, value)]);
        self.set_conf_multiple(options.as_slice())
    }

    /// Asks for the values of one option of the configuration with
    /// `GETCONF`. A missing value stands for the default.
    ///
    /// The reply must hold the option that was asked for, in any case of
    /// its letters, and no other.
    pub fn get_conf(&mut self, config_option: &str) -> (res: Result<
        Vec<Option<String>>,
        ConnError,
    >)
        requires
            old(self).wf(),
        ensures
            final(self).wf(),
            if !is_keyword(config_option.spec_bytes()) {
                &&& res matches Err(e) && e == ConnError::AuthenticatedConnError(
                    AuthenticatedConnError::InvalidKeywordValue,
                )
                &&& *final(self) == *old(self)
            } else {
                &&& exchanged(
                    *old(self),
                    *final(self),
                    get_conf_command(config_option.spec_bytes()),
                )
                &&& match res {
                    Ok(values) => get_conf_result(answer(*old(self)), config_option.spec_bytes())
                        == Ok::<Seq<ValueModel>, ConnError>(values_model(values@)),
                    Err(e) => get_conf_result(answer(*old(self)), config_option.spec_bytes())
                        == Err::<Seq<ValueModel>, ConnError>(e),
                }
            },
    {
        let request = match get_conf_request(config_option) {
            Ok(request) => request,
            Err(e) => {
                return Err(e);
            },
        };
        let (code, lines) = match self.call(request.as_slice()) {
            Ok(reply) => reply,
            Err(e) => {
                return Err(e);
            },
        };
        read_conf_values(code, &lines, config_option)
    }

    /// Asks for information with `GETINFO`. A key may be asked for more
    /// than once.
    ///
    /// The reply must hold the keys that were asked for and no others,
    /// each as often as it was asked for. A key that is no option is
    /// refused before anything is written, and for no keys nothing is
    /// written at all.
    pub fn get_info_multiple(&mut self, options: &[&str]) -> (res: Result<
        KeyedValues<String>,
        ConnError,
    >)
        requires
            old(self).wf(),
        ensures
            final(self).wf(),
            if !all_options(texts(options@)) {
                &&& res matches Err(e) && e == ConnError::AuthenticatedConnError(
                    AuthenticatedConnError::InvalidKeywordValue,
                )
                &&& *final(self) == *old(self)
            } else if options@.len() == 0 {
                &&& res matches Ok(map) && map.wf() && map.entries().len() == 0
                &&& *final(self) == *old(self)
            } else {
                &&& exchanged(*old(self), *final(self), get_info_command(texts(options@)))
                &&& match res {
                    Ok(map) => map.wf() && get_info_result(answer(*old(self)), texts(options@))
                        == Ok::<Seq<Entry>, ConnError>(map.entries()),
                    Err(e) => get_info_result(answer(*old(self)), texts(options@)) == Err::<
                        Seq<Entry>,
                        ConnError,
                    >(e),
                }
            },
    {
        let request = match get_info_request(options) {
            Ok(Some(request)) => request,
            Ok(None) => {
                return Ok(KeyedValues::new());
            },
            Err(e) => {
                return Err(e);
            },
        };
        let (code, lines) = match self.call(request.as_slice()) {
            Ok(reply) => reply,
            Err(e) => {
                return Err(e);
            },
        };
        read_info(code, &lines, options)
    }

    /// Asks for one piece of information with `GETINFO`.
    pub fn get_info(&mut self, option: &str) -> (res: Result<String, ConnError>)
        requires
            old(self).wf(),
        ensures
            final(self).wf(),
            if !crate::utils::is_option(option.spec_bytes()) {
                &&& res matches Err(e) && e == ConnError::AuthenticatedConnError(
                    AuthenticatedConnError::InvalidKeywordValue,
                )
                &&& *final(self) == *old(self)
            } else {
                &&& exchanged(
                    *old(self),
                    *final(self),
                    get_info_command(seq![option.spec_bytes()]),
                )
                &&& match res {
                    Ok(value) => get_info_single(answer(*old(self)), option.spec_bytes()) == Ok::<
                        ValueModel,
                        ConnError,
                    >(value.bytes()),
                    Err(e) => get_info_single(answer(*old(self)), option.spec_bytes()) == Err::<
                        ValueModel,
                        ConnError,
                    >(e),
                }
            },
    {
        let options = [option];
        assert(texts(options@) =~= seq![option.spec_bytes()]);
        match self.get_info_multiple(options.as_slice()) {
            Ok(map) => select_single_value(map),
            Err(e) => Err(e),
        }
    }

    /// Tells Tor to drop its guard nodes, with `DROPGUARDS`.
    pub fn drop_guards(&mut self) -> (res: Result<(), ConnError>)
        requires
            old(self).wf(),
        ensures
            exchanged(*old(self), *final(self), "DROPGUARDS\r\n".spec_bytes()),
            res == status_250(answer(*old(self))),
    {
        self.call_250("DROPGUARDS\r\n".as_bytes())
    }

    /// Tells Tor to end when this connection ends, with `TAKEOWNERSHIP`.
    pub fn take_ownership(&mut self) -> (res: Result<(), ConnError>)
        requires
            old(self).wf(),
        ensures
            exchanged(*old(self), *final(self), "TAKEOWNERSHIP\r\n".spec_bytes()),
            res == status_250(answer(*old(self))),
    {
        self.call_250("TAKEOWNERSHIP\r\n".as_bytes())
    }

    /// Tells Tor not to end when this connection ends, with
    /// `DROPOWNERSHIP`.
    pub fn drop_ownership(&mut self) -> (res: Result<(), ConnError>)
        requires
            old(self).wf(),
        ensures
            exchanged(*old(self), *final(self), "DROPOWNERSHIP\r\n".spec_bytes()),
            res == status_250(answer(*old(self))),
    {
        self.call_250("DROPOWNERSHIP\r\n".as_bytes())
    }

    /// Asks Tor to look a host name up, with `RESOLVE`. What is found
    /// comes as an event `ADDRMAP`. A text that is no host name is refused
    /// before anything is written.
    pub fn resolve(&mut self, hostname: &str) -> (res: Result<(), ConnError>)
        requires
            old(self).wf(),
        ensures
            final(self).wf(),
            if !is_hostname(hostname.spec_bytes()) {
                &&& res == Err::<(), ConnError>(
                    ConnError::AuthenticatedConnError(AuthenticatedConnError::InvalidHostnameValue),
                )
                &&& *final(self) == *old(self)
            } else {
                &&& exchanged(*old(self), *final(self), resolve_command(hostname.spec_bytes()))
                &&& res == status_250(answer(*old(self)))
            },
    {
        match resolve_request(hostname) {
            Ok(request) => self.call_250(request.as_slice()),
            Err(e) => Err(e),
        }
    }

    /// Asks Tor to look up the name of an address of IPv4, with
    /// `RESOLVE mode=reverse`. What is found comes as an event `ADDRMAP`.
    pub fn reverse_resolve(&mut self, address: [u8; 4]) -> (res: Result<(), ConnError>)
        requires
            old(self).wf(),
        ensures
            exchanged(*old(self), *final(self), reverse_resolve_command(address@)),
            res == status_250(answer(*old(self))),
    {
        let request = reverse_resolve_request(address);
        self.call_250(request.as_slice())
    }

    /// Starts an onion service of version 3 with the key `key`, with
    /// `ADD_ONION`.
    ///
    /// Each listener maps a port of the service to an address. When there
    /// is no listener, when a port has two, or when the address of a
    /// listener is none, the command is refused before anything is
    /// written.
    pub fn add_onion_v3(
        &mut self,
        key: &TorSecretKeyV3,
        detach: bool,
        non_anonymous: bool,
        max_streams_close_circuit: bool,
        max_num_streams: Option<u16>,
        listeners: &[(u16, String)],
    ) -> (res: Result<(), ConnError>)
        requires
            old(self).wf(),
        ensures
            final(self).wf(),
            if !listeners_are_valid(listeners_of(listeners@)) {
                &&& res == Err::<(), ConnError>(
                    ConnError::AuthenticatedConnError(
                        AuthenticatedConnError::InvalidListenerSpecification,
                    ),
                )
                &&& *final(self) == *old(self)
            } else {
                &&& exchanged(
                    *old(self),
                    *final(self),
                    add_onion_v3_command(
                        key@,
                        detach,
                        non_anonymous,
                        max_streams_close_circuit,
                        max_num_streams,
                        listeners_of(listeners@),
                    ),
                )
                &&& res == status_250(answer(*old(self)))
            },
    {
        match add_onion_v3_request(
            key,
            detach,
            non_anonymous,
            max_streams_close_circuit,
            max_num_streams,
            listeners,
        ) {
            Ok(request) => self.call_250(request.as_slice()),
            Err(e) => Err(e),
        }
    }

    /// Starts an onion service of version 2 with the key `key`, with
    /// `ADD_ONION`. The arguments are those of
    /// [`AuthenticatedConn::add_onion_v3`].
    pub fn add_onion_v2(
        &mut self,
        key: &TorSecretKeyV2,
        detach: bool,
        non_anonymous: bool,
        max_streams_close_circuit: bool,
        max_num_streams: Option<u16>,
        listeners: &[(u16, String)],
    ) -> (res: Result<(), ConnError>)
        requires
            old(self).wf(),
        ensures
            final(self).wf(),
            if !listeners_are_valid(listeners_of(listeners@)) {
                &&& res == Err::<(), ConnError>(
                    ConnError::AuthenticatedConnError(
                        AuthenticatedConnError::InvalidListenerSpecification,
                    ),
                )
                &&& *final(self) == *old(self)
            } else {
                &&& exchanged(
                    *old(self),
                    *final(self),
                    add_onion_v2_command(
                        key@,
                        detach,
                        non_anonymous,
                        max_streams_close_circuit,
                        max_num_streams,
                        listeners_of(listeners@),
                    ),
                )
                &&& res == status_250(answer(*old(self)))
            },
    {
        match add_onion_v2_request(
            key,
            detach,
            non_anonymous,
            max_streams_close_circuit,
            max_num_streams,
            listeners,
        ) {
            Ok(request) => self.call_250(request.as_slice()),
            Err(e) => Err(e),
        }
    }

    /// Stops an onion service, with `DEL_ONION`. An identifier with a
    /// byte that is no letter, digit, `/` or `=` is refused before
    /// anything is written.
    pub fn del_onion(&mut self, identifier_without_dot_onion: &str) -> (res: Result<
        (),
        ConnError,
    >)
        requires
            old(self).wf(),
        ensures
            final(self).wf(),
            if !is_service_id(identifier_without_dot_onion.spec_bytes()) {
                &&& res == Err::<(), ConnError>(
                    ConnError::AuthenticatedConnError(
                        AuthenticatedConnError::InvalidOnionServiceIdentifier,
                    ),
                )
                &&& *final(self) == *old(self)
            } else {
                &&& exchanged(
                    *old(self),
                    *final(self),
                    del_onion_command(identifier_without_dot_onion.spec_bytes()),
                )
                &&& res == status_250(answer(*old(self)))
            },
    {
        match del_onion_request(identifier_without_dot_onion) {
            Ok(request) => self.call_250(request.as_slice()),
            Err(e) => Err(e),
        }
    }

    /// Tells Tor which events to report, with `SETEVENTS`. The events
    /// that were asked for before are no longer reported, so no names end
    /// every report. A name that is no keyword is refused before anything
    /// is written.
    pub fn set_events(&mut self, extended: bool, kinds: &[&str]) -> (res: Result<(), ConnError>)
        requires
            old(self).wf(),
        ensures
            final(self).wf(),
            if !all_keywords(texts(kinds@)) {
                &&& res == Err::<(), ConnError>(
                    ConnError::AuthenticatedConnError(AuthenticatedConnError::InvalidEventName),
                )
                &&& *final(self) == *old(self)
            } else {
                &&& exchanged(
                    *old(self),
                    *final(self),
                    set_events_command(extended, texts(kinds@)),
                )
                &&& res == status_250(answer(*old(self)))
            },
    {
        match set_events_request(extended, kinds) {
            Ok(request) => self.call_250(request.as_slice()),
            Err(e) => Err(e),
        }
    }

    /// Does nothing but let events come in: asks for the version of Tor
    /// and forgets the answer.
    pub fn noop(&mut self) -> (res: Result<(), ConnError>)
        requires
            old(self).wf(),
        ensures
            exchanged(*old(self), *final(self), get_info_command(seq!["version".spec_bytes()])),
            match res {
                Ok(_) => get_info_single(answer(*old(self)), "version".spec_bytes()) is Ok,
                Err(e) => get_info_single(answer(*old(self)), "version".spec_bytes()) == Err::<
                    ValueModel,
                    ConnError,
                >(e),
            },
    {
        proof {
            lemma_version_is_an_option();
        }
        match self.get_info("version") {
            Ok(_) => Ok(()),
            Err(e) => Err(e),
        }
    }
}

/// `version` is an option.
proof fn lemma_version_is_an_option()
    ensures
        crate::utils::is_option("version".spec_bytes()),
{
    let text = "version";
    reveal_strlit("version");
    vstd::string::is_ascii_spec_bytes(text);
    let bytes = text.spec_bytes();
}

} // verus!

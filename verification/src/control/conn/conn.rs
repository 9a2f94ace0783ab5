//! Framing of replies.
//!
//! A reply is a status code and a list of lines. On the wire each line
//! starts with the three digits of the code and a mark: `-` before a line
//! that others follow, `+` before a data line that ends with a line holding
//! a single dot, and a space before the last line. [`step`] says what one
//! byte does to a reply that is being read, [`run`] what a run of bytes
//! does, and [`ReplyParser`] and [`Conn`] do as they say.

use crate::utils::text::{is_ascii_bytes, string_from_ascii};
use crate::utils::{is_digit, CR, LF, SPACE, ZERO};
use vstd::prelude::*;
use vstd::utf8::encode_utf8;

verus! {

/// `-`
pub const MINUS: u8 = 0x2d;

/// `+`
pub const PLUS: u8 = 0x2b;

/// `.`
pub const DOT: u8 = 0x2e;

/// The number of bytes that one reply may take unless told otherwise.
pub const MAX_SINGLE_RECV_BYTES: usize = 1048576;

/// What can go wrong before authentication.
#[derive(Debug, Clone, Copy, PartialEq, Eq, Structural)]
pub enum UnauthenticatedConnError {
    /// The protocol info was asked for a second time.
    InfoFetchedTwice,
    /// The server's hash in the challenge reply is not the expected one.
    ServerHashMismatch,
    /// A cookie that is not 32 bytes long.
    InvalidCookieLength,
}

/// What can be wrong with the arguments of a command.
#[derive(Debug, Clone, Copy, PartialEq, Eq, Structural)]
pub enum AuthenticatedConnError {
    InvalidKeywordValue,
    InvalidHostnameValue,
    InvalidOnionServiceIdentifier,
    InvalidListenerSpecification,
    InvalidEventName,
}

/// Every error of a connection.
#[derive(Debug, Clone, Copy, PartialEq, Eq, Structural)]
pub enum ConnError {
    /// The transport failed, or ended before the reply did.
    IOError,
    /// A reply that is framed well and says something unexpected.
    InvalidFormat,
    /// A byte that cannot stand where it was found.
    InvalidCharacterFound,
    /// A byte above 127.
    NonAsciiByteFound,
    /// A line whose code is not that of the first line.
    ResponseCodeMismatch,
    /// A reply that takes more bytes than allowed.
    TooManyBytesRead,
    /// A status other than the expected one.
    InvalidResponseCode(u16),
    UnauthenticatedConnError(UnauthenticatedConnError),
    AuthenticatedConnError(AuthenticatedConnError),
}

/// Where in a line the parser stands.
#[derive(Debug, Clone, Copy, PartialEq, Eq, Structural)]
pub enum Stage {
    /// In the three digits of the code.
    Code,
    /// At the mark behind the code.
    Mark,
    /// In a line that others follow.
    Mid,
    /// In the last line.
    Last,
    /// In a data line.
    Data,
}

/// A reply that is being read.
pub struct ParseState {
    pub stage: Stage,
    /// The code of the first line, once it is read.
    pub code: Option<u16>,
    /// The lines read so far.
    pub lines: Seq<Seq<u8>>,
    /// The bytes of the current code or line.
    pub buffer: Seq<u8>,
    /// The number of bytes read for this reply.
    pub read: nat,
}

/// What one byte does to a reply that is being read.
pub enum Step {
    /// The reply goes on.
    More(ParseState),
    /// The reply is complete.
    Done(u16, Seq<Seq<u8>>),
    Fail(ConnError),
}

/// What a run of bytes does to a reply that is being read.
pub enum Outcome {
    /// The reply is complete after `consumed` bytes of it.
    Reply { code: u16, lines: Seq<Seq<u8>>, consumed: nat },
    /// The bytes ended before the reply did.
    Starved(ParseState),
    Fail(ConnError),
}

/// No byte of the reply is read yet.
pub open spec fn start() -> ParseState {
    ParseState {
        stage: Stage::Code,
        code: None,
        lines: Seq::empty(),
        buffer: Seq::empty(),
        read: 0,
    }
}

/// The number that three digits write.
pub open spec fn code_value(digits: Seq<u8>) -> int {
    (digits[0] - ZERO) * 100 + (digits[1] - ZERO) * 10 + (digits[2] - ZERO)
}

/// `buffer` ends with a carriage return and a line feed.
pub open spec fn ends_line(buffer: Seq<u8>) -> bool {
    let n = buffer.len() as int;
    n >= 2 && buffer[n - 2] == CR && buffer[n - 1] == LF
}

/// `buffer` ends with an empty line that holds a single dot.
pub open spec fn ends_data(buffer: Seq<u8>) -> bool {
    let n = buffer.len() as int;
    n >= 5 && buffer[n - 5] == CR && buffer[n - 4] == LF && buffer[n - 3] == DOT && buffer[n - 2]
        == CR && buffer[n - 1] == LF
}

/// What the byte `b` does in the state `st`, the ceiling aside.
pub open spec fn step(st: ParseState, b: u8) -> Step {
    if b >= 0x80 {
        Step::Fail(ConnError::NonAsciiByteFound)
    } else {
        match st.stage {
            Stage::Code => {
                let digits = st.buffer.push(b);
                if !is_digit(b) {
                    Step::Fail(ConnError::InvalidCharacterFound)
                } else if digits.len() != 3 {
                    Step::More(ParseState { buffer: digits, ..st })
                } else if st.code is Some && st.code->0 != code_value(digits) {
                    Step::Fail(ConnError::ResponseCodeMismatch)
                } else {
                    Step::More(
                        ParseState {
                            stage: Stage::Mark,
                            code: Some(code_value(digits) as u16),
                            buffer: Seq::empty(),
                            ..st
                        },
                    )
                }
            },
            Stage::Mark => {
                if b == SPACE {
                    Step::More(ParseState { stage: Stage::Last, ..st })
                } else if b == MINUS {
                    Step::More(ParseState { stage: Stage::Mid, ..st })
                } else if b == PLUS {
                    Step::More(ParseState { stage: Stage::Data, ..st })
                } else {
                    Step::Fail(ConnError::InvalidCharacterFound)
                }
            },
            Stage::Mid => {
                let buffer = st.buffer.push(b);
                if ends_line(buffer) {
                    Step::More(
                        ParseState {
                            stage: Stage::Code,
                            lines: st.lines.push(buffer.take(buffer.len() - 2)),
                            buffer: Seq::empty(),
                            ..st
                        },
                    )
                } else {
                    Step::More(ParseState { buffer, ..st })
                }
            },
            Stage::Last => {
                let buffer = st.buffer.push(b);
                if ends_line(buffer) {
                    match st.code {
                        Some(code) => Step::Done(
                            code,
                            st.lines.push(buffer.take(buffer.len() - 2)),
                        ),
                        None => Step::Fail(ConnError::InvalidFormat),
                    }
                } else {
                    Step::More(ParseState { buffer, ..st })
                }
            },
            Stage::Data => {
                let buffer = st.buffer.push(b);
                if ends_data(buffer) {
                    Step::More(
                        ParseState {
                            stage: Stage::Code,
                            lines: st.lines.push(buffer.take(buffer.len() - 5)),
                            buffer: Seq::empty(),
                            ..st
                        },
                    )
                } else {
                    Step::More(ParseState { buffer, ..st })
                }
            },
        }
    }
}

/// What the byte `b` does in the state `st` when a reply may take `limit`
/// bytes: nothing is read once `limit` bytes are.
pub open spec fn feed(st: ParseState, limit: nat, b: u8) -> Step {
    if st.read >= limit {
        Step::Fail(ConnError::TooManyBytesRead)
    } else {
        step(ParseState { read: st.read + 1, ..st }, b)
    }
}

/// What the bytes `input` do in the state `st`. The ceiling is looked at
/// before the next byte is asked for.
pub open spec fn run(st: ParseState, limit: nat, input: Seq<u8>) -> Outcome
    decreases input.len(),
{
    if st.read >= limit {
        Outcome::Fail(ConnError::TooManyBytesRead)
    } else if input.len() == 0 {
        Outcome::Starved(st)
    } else {
        match feed(st, limit, input[0]) {
            Step::More(next) => run(next, limit, input.skip(1)),
            Step::Done(code, lines) => Outcome::Reply { code, lines, consumed: st.read + 1 },
            Step::Fail(e) => Outcome::Fail(e),
        }
    }
}

/// The reply at the head of `input`.
pub open spec fn frame(input: Seq<u8>, limit: nat) -> Outcome {
    run(start(), limit, input)
}

/// The lines of a reply as bytes.
pub open spec fn line_bytes(lines: Seq<String>) -> Seq<Seq<u8>> {
    Seq::new(lines.len(), |i: int| encode_utf8(lines[i]@))
}

/// A reply as bytes, or why there is none.
pub type ReplyModel = Result<(u16, Seq<Seq<u8>>), ConnError>;

/// The reply that is read from the unread bytes `unread`. Bytes that end
/// before the reply does are a failure of the transport.
pub open spec fn received(unread: Seq<u8>, limit: nat) -> ReplyModel {
    match frame(unread, limit) {
        Outcome::Reply { code, lines, .. } => Ok((code, lines)),
        Outcome::Starved(_) => Err(ConnError::IOError),
        Outcome::Fail(e) => Err(e),
    }
}

/// What is left unread behind the reply at the head of `unread`.
pub open spec fn left_unread(unread: Seq<u8>, limit: nat) -> Seq<u8> {
    match frame(unread, limit) {
        Outcome::Reply { consumed, .. } => unread.skip(consumed as int),
        _ => Seq::empty(),
    }
}

/// A reply, with its lines as bytes.
pub open spec fn reply_model(res: Result<(u16, Vec<String>), ConnError>) -> ReplyModel {
    match res {
        Ok(r) => Ok((r.0, line_bytes(r.1@))),
        Err(e) => Err(e),
    }
}

/// Reads replies one byte at a time.
pub struct ReplyParser {
    limit: usize,
    stage: Stage,
    code: Option<u16>,
    lines: Vec<String>,
    buffer: Vec<u8>,
    read: usize,
}

impl View for ReplyParser {
    type V = ParseState;

    closed spec fn view(&self) -> ParseState {
        ParseState {
            stage: self.stage,
            code: self.code,
            lines: line_bytes(self.lines@),
            buffer: self.buffer@,
            read: self.read as nat,
        }
    }
}

impl ReplyParser {
    /// The number of bytes that one reply may take.
    pub closed spec fn limit(&self) -> nat {
        self.limit as nat
    }

    /// The buffer holds what the stage allows.
    pub closed spec fn wf(&self) -> bool {
        &&& is_ascii_bytes(self.buffer@)
        &&& self.stage == Stage::Code ==> self.buffer@.len() < 3 && forall|i: int|
            0 <= i < self.buffer@.len() ==> is_digit(#[trigger] self.buffer@[i])
        &&& self.stage == Stage::Mark ==> self.buffer@.len() == 0
    }

    /// A parser at the start of a reply that may take `limit` bytes.
    pub fn new(limit: usize) -> (res: ReplyParser)
        ensures
            res.wf(),
            res@ == start(),
            res.limit() == limit,
    {
        let res = ReplyParser {
            limit,
            stage: Stage::Code,
            code: None,
            lines: Vec::new(),
            buffer: Vec::new(),
            read: 0,
        };
        assert(line_bytes(res.lines@) =~= Seq::<Seq<u8>>::empty());
        res
    }

    /// Tells whether the reply may take another byte.
    pub fn can_read(&self) -> (res: bool)
        ensures
            res == (self@.read < self.limit()),
    {
        self.read < self.limit
    }

    /// Goes back to the start of a reply.
    fn reset(&mut self)
        ensures
            final(self).wf(),
            final(self)@ == start(),
            final(self).limit() == old(self).limit(),
    {
        self.stage = Stage::Code;
        self.code = None;
        self.lines = Vec::new();
        self.buffer = Vec::new();
        self.read = 0;
        assert(line_bytes(self.lines@) =~= Seq::<Seq<u8>>::empty());
    }

    /// Moves the buffer, without its last `cut` bytes, to the lines.
    fn finish_line(&mut self, cut: usize)
        requires
            is_ascii_bytes(old(self).buffer@),
            cut <= old(self).buffer@.len(),
        ensures
            final(self).buffer@ == Seq::<u8>::empty(),
            line_bytes(final(self).lines@) == line_bytes(old(self).lines@).push(
                old(self).buffer@.take(old(self).buffer@.len() - cut),
            ),
            final(self).limit == old(self).limit,
            final(self).stage == old(self).stage,
            final(self).code == old(self).code,
            final(self).read == old(self).read,
    {
        let keep = self.buffer.len() - cut;
        self.buffer.truncate(keep);
        let line = string_from_ascii(self.buffer.as_slice());
        self.buffer.clear();
        self.lines.push(line);
    }

    /// Takes the next byte of the reply.
    ///
    /// Gives the reply when `b` completes it, nothing while it goes on.
    /// After a complete reply and after an error the parser stands at the
    /// start of the next reply.
    pub fn push(&mut self, b: u8) -> (res: Result<Option<(u16, Vec<String>)>, ConnError>)
        requires
            old(self).wf(),
        ensures
            final(self).wf(),
            final(self).limit() == old(self).limit(),
            match feed(old(self)@, old(self).limit(), b) {
                Step::More(st) => res matches Ok(None) && final(self)@ == st,
                Step::Done(code, lines) => final(self)@ == start() && (res matches Ok(Some(r))
                    && r.0 == code && line_bytes(r.1@) == lines),
                Step::Fail(e) => final(self)@ == start() && (res matches Err(err) && err == e),
            },
    {
        if self.read >= self.limit {
            self.reset();
            return Err(ConnError::TooManyBytesRead);
        }
        self.read = self.read + 1;
        if b >= 0x80 {
            self.reset();
            return Err(ConnError::NonAsciiByteFound);
        }
        match self.stage {
            Stage::Code => {
                if !(b >= 0x30 && b <= 0x39) {
                    self.reset();
                    return Err(ConnError::InvalidCharacterFound);
                }
                self.buffer.push(b);
                if self.buffer.len() == 3 {
                    let code: u16 = ((self.buffer[0] - ZERO) as u16) * 100 + ((self.buffer[1]
                        - ZERO) as u16) * 10 + ((self.buffer[2] - ZERO) as u16);
                    match self.code {
                        Some(first) => {
                            if first != code {
                                self.reset();
                                return Err(ConnError::ResponseCodeMismatch);
                            }
                        },
                        None => {
                            self.code = Some(code);
                        },
                    }
                    self.buffer.clear();
                    self.stage = Stage::Mark;
                }
                Ok(None)
            },
            Stage::Mark => {
                if b == SPACE {
                    self.stage = Stage::Last;
                } else if b == MINUS {
                    self.stage = Stage::Mid;
                } else if b == PLUS {
                    self.stage = Stage::Data;
                } else {
                    self.reset();
                    return Err(ConnError::InvalidCharacterFound);
                }
                Ok(None)
            },
            Stage::Mid => {
                self.buffer.push(b);
                let n = self.buffer.len();
                if n >= 2 && self.buffer[n - 2] == CR && self.buffer[n - 1] == LF {
                    self.finish_line(2);
                    self.stage = Stage::Code;
                }
                Ok(None)
            },
            Stage::Last => {
                self.buffer.push(b);
                let n = self.buffer.len();
                if n >= 2 && self.buffer[n - 2] == CR && self.buffer[n - 1] == LF {
                    self.finish_line(2);
                    let mut lines: Vec<String> = Vec::new();
                    core::mem::swap(&mut self.lines, &mut lines);
                    let code = self.code;
                    self.reset();
                    match code {
                        Some(code) => Ok(Some((code, lines))),
                        None => Err(ConnError::InvalidFormat),
                    }
                } else {
                    Ok(None)
                }
            },
            Stage::Data => {
                self.buffer.push(b);
                let n = self.buffer.len();
                if n >= 5 && self.buffer[n - 5] == CR && self.buffer[n - 4] == LF && self.buffer[n
                    - 3] == DOT && self.buffer[n - 2] == CR && self.buffer[n - 1] == LF {
                    self.finish_line(5);
                    self.stage = Stage::Code;
                }
                Ok(None)
            },
        }
    }
}

/// A connection whose transport is kept in memory.
///
/// The bytes that the peer has sent are put in with [`Conn::push_input`] and
/// read as replies with [`Conn::receive_data`]. The bytes to send are
/// written with [`Conn::write_data`] and taken out with
/// [`Conn::take_output`].
pub struct Conn {
    input: Vec<u8>,
    pos: usize,
    output: Vec<u8>,
    limit: usize,
}

impl Conn {
    /// The read position lies within the input.
    pub closed spec fn wf(&self) -> bool {
        self.pos <= self.input@.len()
    }

    /// The bytes of the peer that no reply has taken yet.
    pub closed spec fn unread(&self) -> Seq<u8> {
        self.input@.skip(self.pos as int)
    }

    /// The bytes written and not taken out yet.
    pub closed spec fn written(&self) -> Seq<u8> {
        self.output@
    }

    /// The number of bytes that one reply may take.
    pub closed spec fn limit(&self) -> nat {
        self.limit as nat
    }

    /// A connection on which nothing was read or written, with the usual
    /// ceiling of one mebibyte for a reply.
    pub fn new() -> (res: Conn)
        ensures
            res.wf(),
            res.unread() == Seq::<u8>::empty(),
            res.written() == Seq::<u8>::empty(),
            res.limit() == MAX_SINGLE_RECV_BYTES,
    {
        Conn::with_limit(MAX_SINGLE_RECV_BYTES)
    }

    /// A connection on which nothing was read or written, and on which a
    /// reply may take `limit` bytes.
    pub fn with_limit(limit: usize) -> (res: Conn)
        ensures
            res.wf(),
            res.unread() == Seq::<u8>::empty(),
            res.written() == Seq::<u8>::empty(),
            res.limit() == limit,
    {
        let res = Conn { input: Vec::new(), pos: 0, output: Vec::new(), limit };
        res
    }

    /// Takes the connection apart: the unread bytes and the written ones.
    pub fn into_inner(self) -> (res: (Vec<u8>, Vec<u8>))
        requires
            self.wf(),
        ensures
            res.0@ == self.unread(),
            res.1@ == self.written(),
    {
        let mut input = self.input;
        let rest = input.split_off(self.pos);
        (rest, self.output)
    }

    /// Puts in bytes that the peer has sent. Bytes that were read are let
    /// go of when nothing is left unread.
    pub fn push_input(&mut self, data: &[u8])
        requires
            old(self).wf(),
        ensures
            final(self).wf(),
            final(self).unread() == old(self).unread() + data@,
            final(self).written() == old(self).written(),
            final(self).limit() == old(self).limit(),
    {
        if self.pos == self.input.len() {
            self.input.clear();
            self.pos = 0;
        }
        self.input.extend_from_slice(data);
        assert(self.input@.skip(self.pos as int) =~= old(self).input@.skip(old(self).pos as int)
            + data@);
    }

    /// Takes out the bytes written so far.
    pub fn take_output(&mut self) -> (res: Vec<u8>)
        requires
            old(self).wf(),
        ensures
            final(self).wf(),
            res@ == old(self).written(),
            final(self).written() == Seq::<u8>::empty(),
            final(self).unread() == old(self).unread(),
            final(self).limit() == old(self).limit(),
    {
        let mut out: Vec<u8> = Vec::new();
        core::mem::swap(&mut self.output, &mut out);
        out
    }

    /// Writes `data` to the peer.
    pub fn write_data(&mut self, data: &[u8]) -> (res: Result<(), ConnError>)
        requires
            old(self).wf(),
        ensures
            final(self).wf(),
            res is Ok,
            final(self).written() == old(self).written() + data@,
            final(self).unread() == old(self).unread(),
            final(self).limit() == old(self).limit(),
    {
        self.output.extend_from_slice(data);
        Ok(())
    }

    /// Reads one reply from the unread bytes.
    ///
    /// The reply is the one that [`frame`] finds at the head of the unread
    /// bytes, and its bytes are taken. Unread bytes that end before the reply
    /// does are taken all, and the transport is reported as failed.
    pub fn receive_data(&mut self) -> (res: Result<(u16, Vec<String>), ConnError>)
        requires
            old(self).wf(),
        ensures
            final(self).wf(),
            final(self).written() == old(self).written(),
            final(self).limit() == old(self).limit(),
            reply_model(res) == received(old(self).unread(), old(self).limit()),
            res matches Ok(r) ==> r.0 <= 999,
            res is Ok ==> final(self).unread() == left_unread(
                old(self).unread(),
                old(self).limit(),
            ),
            frame(old(self).unread(), old(self).limit()) matches Outcome::Reply { consumed, .. }
                ==> 0 < consumed <= old(self).unread().len(),
            frame(old(self).unread(), old(self).limit()) is Starved ==> final(self).unread()
                == Seq::<u8>::empty(),
    {
        let mut parser = ReplyParser::new(self.limit);
        let ghost all = self.unread();
        let ghost begin = self.pos;
        assert(all.skip(0) =~= all);
        loop
            invariant
                self.wf(),
                parser.wf(),
                parser.limit() == self.limit(),
                self.limit() == old(self).limit(),
                self.written() == old(self).written(),
                self.input@ == old(self).input@,
                all == old(self).unread(),
                begin == old(self).pos,
                begin <= self.pos,
                parser@.read == self.pos - begin,
                parser@.code matches Some(c) ==> c <= 999,
                run(parser@, self.limit(), all.skip(self.pos - begin)) == frame(
                    all,
                    self.limit(),
                ),
            decreases self.input@.len() - self.pos,
        {
            let ghost rest = all.skip(self.pos - begin);
            if !parser.can_read() {
                return Err(ConnError::TooManyBytesRead);
            }
            if self.pos >= self.input.len() {
                return Err(ConnError::IOError);
            }
            let b = self.input[self.pos];
            assert(rest.skip(1) =~= all.skip(self.pos + 1 - begin));
            self.pos = self.pos + 1;
            match parser.push(b) {
                Ok(Some(reply)) => {
                    return Ok(reply);
                },
                Ok(None) => {
                },
                Err(e) => {
                    return Err(e);
                },
            }
        }
    }
}

} // verus!

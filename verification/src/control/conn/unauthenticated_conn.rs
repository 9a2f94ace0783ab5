//! A connection that is not authenticated yet.
//!
//! On such a connection the protocol info can be asked for, once, and one
//! of four procedures of authentication can be run. After that the
//! connection is turned into an authenticated one, and is gone.
//!
//! A procedure of authentication is given as steps, from each reply to
//! what is written next ([`Authentication`]), and run whole on a
//! connection in memory. In the safe procedure the server has to prove
//! that it knows the cookie before the client answers its challenge.

use crate::control::conn::authenticated_conn::AuthenticatedConn;
use crate::control::conn::conn::{
    left_unread, line_bytes, received, Conn, ConnError, ReplyModel, UnauthenticatedConnError,
};
use crate::control::conn::protocol_info::{parse_protocol_info, protocol_info};
use crate::control::primitives::auth::{TorAuthData, TorPreAuthInfo, COOKIE_LENGTH};
use crate::utils::codec::{hex_bytes, hex_decode_32, hex_encode_upper, hex_upper, is_hex};
use crate::utils::crypto::{hmac_sha256, hmac_sha256_code, random_32};
use crate::utils::quoted::{push_quoted, quoted};
use crate::utils::text::bytes_eq;
use crate::utils::{CR, LF};
use vstd::prelude::*;
use vstd::slice::{slice_subrange, slice_to_vec};
use vstd::string::StringSliceAdditionalSpecFns;
use vstd::utf8::encode_utf8;

verus! {

/// What Tor answers to `AUTHCHALLENGE`.
#[derive(Debug, Clone, Copy, PartialEq, Eq)]
pub struct AuthChallengeResponse {
    /// The hash of the server, 32 bytes.
    pub server_hash: [u8; 32],
    /// The nonce of the server, 32 bytes.
    pub server_nonce: [u8; 32],
}

/// What ends a command.
pub open spec fn crlf() -> Seq<u8> {
    seq![CR, LF]
}

/// The command that asks for the protocol info.
pub open spec fn protocol_info_request() -> Seq<u8> {
    "PROTOCOLINFO 1\r\n".spec_bytes()
}

/// The command that asks for a challenge, with the nonce of the client.
pub open spec fn auth_challenge_request(client_nonce: Seq<u8>) -> Seq<u8> {
    "AUTHCHALLENGE SAFECOOKIE ".spec_bytes() + hex_upper(client_nonce) + crlf()
}

/// The hash that proves the cookie to the server.
pub open spec fn safe_cookie_hash(cookie: Seq<u8>, client_nonce: Seq<u8>, server_nonce: Seq<u8>)
    -> Seq<u8> {
    hmac_sha256(
        "Tor safe cookie authentication controller-to-server hash".spec_bytes(),
        cookie + client_nonce + server_nonce,
    )
}

/// The command that answers a challenge.
pub open spec fn safe_cookie_request(
    cookie: Seq<u8>,
    client_nonce: Seq<u8>,
    server_nonce: Seq<u8>,
) -> Seq<u8> {
    "AUTHENTICATE ".spec_bytes() + hex_upper(safe_cookie_hash(cookie, client_nonce, server_nonce))
        + crlf()
}

/// The hash by which the server proves that it knows the cookie.
pub open spec fn server_hash(cookie: Seq<u8>, client_nonce: Seq<u8>, server_nonce: Seq<u8>) -> Seq<
    u8,
> {
    hmac_sha256(
        "Tor safe cookie authentication server-to-controller hash".spec_bytes(),
        cookie + client_nonce + server_nonce,
    )
}

/// The first command of an authentication with `data`: the bare command,
/// the quoted password, the cookie in upper case hexadecimal digits, or,
/// for the safe procedure, the request for a challenge with the nonce of
/// the client. The safe procedure never sends the cookie.
pub open spec fn first_request(data: TorAuthData, nonce: Seq<u8>) -> Seq<u8> {
    match data {
        TorAuthData::Null => "AUTHENTICATE\r\n".spec_bytes(),
        TorAuthData::HashedPassword(password) => "AUTHENTICATE ".spec_bytes() + quoted(
            encode_utf8(password@),
        ) + crlf(),
        TorAuthData::Cookie(cookie) => "AUTHENTICATE ".spec_bytes() + hex_upper(cookie@) + crlf(),
        TorAuthData::SafeCookie(_) => auth_challenge_request(nonce),
    }
}

/// The hash and the nonce of the server in a reply to `AUTHCHALLENGE`.
///
/// The reply has the status 250 and one line of 166 bytes,
/// `AUTHCHALLENGE SERVERHASH=` and `SERVERNONCE=` with 64 hexadecimal
/// digits behind each and one space between the two.
pub open spec fn auth_challenge(code: u16, lines: Seq<Seq<u8>>) -> Result<
    (Seq<u8>, Seq<u8>),
    ConnError,
> {
    if code != 250 {
        Err(ConnError::InvalidResponseCode(code))
    } else if lines.len() == 1 && lines[0].len() == 166 && lines[0].subrange(0, 25)
        == "AUTHCHALLENGE SERVERHASH=".spec_bytes() && lines[0].subrange(89, 102)
        == " SERVERNONCE=".spec_bytes() && is_hex(lines[0].subrange(25, 89)) && is_hex(
        lines[0].subrange(102, 166),
    ) {
        Ok((hex_bytes(lines[0].subrange(25, 89)), hex_bytes(lines[0].subrange(102, 166))))
    } else {
        Err(ConnError::InvalidFormat)
    }
}

/// The command that answers the reply to `AUTHCHALLENGE`, if the reply is
/// one and the server has proved that it knows the cookie: a server whose
/// hash is not the expected one is refused, and gets no answer.
pub open spec fn challenge_answer(
    cookie: Seq<u8>,
    client_nonce: Seq<u8>,
    code: u16,
    lines: Seq<Seq<u8>>,
) -> Result<Seq<u8>, ConnError> {
    match auth_challenge(code, lines) {
        Ok((hash, server_nonce)) => if hash == server_hash(cookie, client_nonce, server_nonce) {
            Ok(safe_cookie_request(cookie, client_nonce, server_nonce))
        } else {
            Err(
                ConnError::UnauthenticatedConnError(UnauthenticatedConnError::ServerHashMismatch),
            )
        },
        Err(e) => Err(e),
    }
}

/// What a reply says to a command that is answered with the status 250
/// and nothing else.
pub open spec fn status_250(reply: ReplyModel) -> Result<(), ConnError> {
    match reply {
        Ok((code, _)) => if code == 250 {
            Ok(())
        } else {
            Err(ConnError::InvalidResponseCode(code))
        },
        Err(e) => Err(e),
    }
}

/// What authenticating with `data` writes, and how it ends, when the
/// nonce of the client is `nonce` and the bytes `unread` are there to be
/// read.
///
/// A cookie that has not 32 bytes is refused before anything is written.
/// The safe procedure asks for a challenge first and answers it only as
/// [`challenge_answer`] says.
pub open spec fn authentication(data: TorAuthData, nonce: Seq<u8>, unread: Seq<u8>, limit: nat)
    -> (Seq<u8>, Result<(), ConnError>) {
    if has_bad_cookie(data) {
        (
            Seq::empty(),
            Err(ConnError::UnauthenticatedConnError(UnauthenticatedConnError::InvalidCookieLength)),
        )
    } else {
        match data {
            TorAuthData::SafeCookie(cookie) => match received(unread, limit) {
                Ok((code, lines)) => match challenge_answer(cookie@, nonce, code, lines) {
                    Ok(answer) => (
                        first_request(data, nonce) + answer,
                        status_250(received(left_unread(unread, limit), limit)),
                    ),
                    Err(e) => (first_request(data, nonce), Err(e)),
                },
                Err(e) => (first_request(data, nonce), Err(e)),
            },
            _ => (first_request(data, nonce), status_250(received(unread, limit))),
        }
    }
}

/// A cookie of the wrong length.
pub open spec fn has_bad_cookie(data: TorAuthData) -> bool {
    match data {
        TorAuthData::SafeCookie(cookie) => cookie@.len() != COOKIE_LENGTH,
        TorAuthData::Cookie(cookie) => cookie@.len() != COOKIE_LENGTH,
        _ => false,
    }
}

/// What is left unread behind an authentication that went well: what
/// stands behind the one reply that was read, or behind the two of the
/// safe procedure.
pub open spec fn unread_after_authentication(data: TorAuthData, unread: Seq<u8>, limit: nat) -> Seq<
    u8,
> {
    match data {
        TorAuthData::SafeCookie(_) => left_unread(left_unread(unread, limit), limit),
        _ => left_unread(unread, limit),
    }
}

/// Tells what a reply says to a command that is answered with the status
/// 250 and nothing else.
pub fn expect_250(code: u16) -> (res: Result<(), ConnError>)
    ensures
        res == if code == 250 {
            Ok::<(), ConnError>(())
        } else {
            Err::<(), ConnError>(ConnError::InvalidResponseCode(code))
        },
{
    if code != 250 {
        return Err(ConnError::InvalidResponseCode(code));
    }
    Ok(())
}

/// Reads a reply to `AUTHCHALLENGE`.
pub fn parse_auth_challenge(code: u16, lines: &Vec<String>) -> (res: Result<
    AuthChallengeResponse,
    ConnError,
>)
    ensures
        match res {
            Ok(r) => auth_challenge(code, line_bytes(lines@)) == Ok::<
                (Seq<u8>, Seq<u8>),
                ConnError,
            >((r.server_hash@, r.server_nonce@)),
            Err(e) => auth_challenge(code, line_bytes(lines@)) == Err::<
                (Seq<u8>, Seq<u8>),
                ConnError,
            >(e),
        },
{
    if code != 250 {
        return Err(ConnError::InvalidResponseCode(code));
    }
    if lines.len() != 1 {
        return Err(ConnError::InvalidFormat);
    }
    let line = lines[0].as_str().as_bytes();
    if line.len() != 166 {
        return Err(ConnError::InvalidFormat);
    }
    if !bytes_eq(slice_subrange(line, 0, 25), "AUTHCHALLENGE SERVERHASH=".as_bytes()) {
        return Err(ConnError::InvalidFormat);
    }
    if !bytes_eq(slice_subrange(line, 89, 102), " SERVERNONCE=".as_bytes()) {
        return Err(ConnError::InvalidFormat);
    }
    let server_hash = match hex_decode_32(slice_subrange(line, 25, 89)) {
        Some(bytes) => bytes,
        None => {
            return Err(ConnError::InvalidFormat);
        },
    };
    let server_nonce = match hex_decode_32(slice_subrange(line, 102, 166)) {
        Some(bytes) => bytes,
        None => {
            return Err(ConnError::InvalidFormat);
        },
    };
    Ok(AuthChallengeResponse { server_hash, server_nonce })
}

/// Writes the command that asks for a challenge.
pub fn make_auth_challenge_request(client_nonce: &[u8]) -> (res: Vec<u8>)
    ensures
        res@ == auth_challenge_request(client_nonce@),
{
    let mut buf: Vec<u8> = Vec::new();
    buf.extend_from_slice("AUTHCHALLENGE SAFECOOKIE ".as_bytes());
    let text = hex_encode_upper(client_nonce);
    buf.extend_from_slice(text.as_str().as_bytes());
    buf.push(CR);
    buf.push(LF);
    buf
}

/// Writes the command that answers a challenge: `AUTHENTICATE` with the
/// hash over the cookie and the two nonces.
pub fn make_safe_cookie_request(cookie: &[u8], client_nonce: &[u8], server_nonce: &[u8]) -> (res:
    Vec<u8>)
    ensures
        res@ == safe_cookie_request(cookie@, client_nonce@, server_nonce@),
{
    let mut message: Vec<u8> = Vec::new();
    message.extend_from_slice(cookie);
    message.extend_from_slice(client_nonce);
    message.extend_from_slice(server_nonce);
    assert(message@ =~= cookie@ + client_nonce@ + server_nonce@);
    let key = "Tor safe cookie authentication controller-to-server hash";
    let code = hmac_sha256_code(key.as_bytes(), message.as_slice()).unwrap();
    let mut buf: Vec<u8> = Vec::new();
    buf.extend_from_slice("AUTHENTICATE ".as_bytes());
    let text = hex_encode_upper(code.as_slice());
    buf.extend_from_slice(text.as_str().as_bytes());
    buf.push(CR);
    buf.push(LF);
    buf
}

/// Tells whether two hashes are the same. Every byte is looked at,
/// whether an earlier one differs or not.
fn same_hash(a: &[u8; 32], b: &[u8; 32]) -> (res: bool)
    ensures
        res == (a@ == b@),
{
    let mut diff: u8 = 0;
    let mut i: usize = 0;
    while i < 32
        invariant
            i <= 32,
            diff == 0 <==> forall|j: int| 0 <= j < i ==> a@[j] == b@[j],
        decreases 32 - i,
    {
        let x = a[i];
        let y = b[i];
        let next = diff | (x ^ y);
        assert((next == 0) <==> (diff == 0 && x == y)) by (bit_vector)
            requires
                next == diff | (x ^ y),
        ;
        diff = next;
        i += 1;
    }
    assert(diff == 0 ==> a@ =~= b@);
    diff == 0
}

/// Tells whether the server has proved that it knows the cookie: whether
/// the hash in its challenge is the expected one.
pub fn check_server_hash(cookie: &[u8], client_nonce: &[u8], challenge: &AuthChallengeResponse)
    -> (res: Result<(), ConnError>)
    ensures
        res == if challenge.server_hash@ == server_hash(
            cookie@,
            client_nonce@,
            challenge.server_nonce@,
        ) {
            Ok::<(), ConnError>(())
        } else {
            Err::<(), ConnError>(
                ConnError::UnauthenticatedConnError(UnauthenticatedConnError::ServerHashMismatch),
            )
        },
{
    let mut message: Vec<u8> = Vec::new();
    message.extend_from_slice(cookie);
    message.extend_from_slice(client_nonce);
    message.extend_from_slice(challenge.server_nonce.as_slice());
    assert(message@ =~= cookie@ + client_nonce@ + challenge.server_nonce@);
    let key = "Tor safe cookie authentication server-to-controller hash";
    let expected = hmac_sha256_code(key.as_bytes(), message.as_slice()).unwrap();
    if same_hash(&challenge.server_hash, &expected) {
        Ok(())
    } else {
        Err(ConnError::UnauthenticatedConnError(UnauthenticatedConnError::ServerHashMismatch))
    }
}

/// Where an authentication stands, between what was written and the reply
/// to it.
#[derive(Debug, Clone, PartialEq, Eq)]
pub enum Authentication {
    /// The challenge was asked for. The cookie and the nonce of the client
    /// are kept for the answer.
    AwaitChallenge { cookie: Vec<u8>, nonce: [u8; 32] },
    /// `AUTHENTICATE` was written.
    AwaitStatus,
}

/// What a reply does to an authentication.
#[derive(Debug, Clone, PartialEq, Eq)]
pub enum AuthProgress {
    /// The bytes are to be written, and the next reply is awaited.
    Send(Authentication, Vec<u8>),
    /// Tor has accepted the authentication.
    Done,
}

impl Authentication {
    /// The cookie and the nonce that are kept for the answer to the
    /// challenge, if the challenge is awaited.
    pub open spec fn kept(self) -> Option<(Seq<u8>, Seq<u8>)> {
        match self {
            Authentication::AwaitChallenge { cookie, nonce } => Some((cookie@, nonce@)),
            Authentication::AwaitStatus => None,
        }
    }

    /// Begins an authentication with `data` and the nonce `nonce` of the
    /// client: gives the first command, and where the authentication
    /// stands when it is written. A cookie that has not 32 bytes is
    /// refused.
    pub fn start(data: &TorAuthData, nonce: &[u8; 32]) -> (res: Result<
        (Authentication, Vec<u8>),
        ConnError,
    >)
        ensures
            match res {
                Ok((state, request)) => {
                    &&& !has_bad_cookie(*data)
                    &&& request@ == first_request(*data, nonce@)
                    &&& state.kept() == match *data {
                        TorAuthData::SafeCookie(cookie) => Some((cookie@, nonce@)),
                        _ => None::<(Seq<u8>, Seq<u8>)>,
                    }
                },
                Err(e) => has_bad_cookie(*data) && e == ConnError::UnauthenticatedConnError(
                    UnauthenticatedConnError::InvalidCookieLength,
                ),
            },
    {
        let mut buf: Vec<u8> = Vec::new();
        match data {
            TorAuthData::Null => {
                buf.extend_from_slice("AUTHENTICATE\r\n".as_bytes());
                Ok((Authentication::AwaitStatus, buf))
            },
            TorAuthData::HashedPassword(password) => {
                buf.extend_from_slice("AUTHENTICATE ".as_bytes());
                push_quoted(&mut buf, password.as_str().as_bytes());
                buf.push(CR);
                buf.push(LF);
                Ok((Authentication::AwaitStatus, buf))
            },
            TorAuthData::Cookie(cookie) => {
                if cookie.len() != COOKIE_LENGTH {
                    return Err(
                        ConnError::UnauthenticatedConnError(
                            UnauthenticatedConnError::InvalidCookieLength,
                        ),
                    );
                }
                buf.extend_from_slice("AUTHENTICATE ".as_bytes());
                let text = hex_encode_upper(cookie.as_slice());
                buf.extend_from_slice(text.as_str().as_bytes());
                buf.push(CR);
                buf.push(LF);
                Ok((Authentication::AwaitStatus, buf))
            },
            TorAuthData::SafeCookie(cookie) => {
                if cookie.len() != COOKIE_LENGTH {
                    return Err(
                        ConnError::UnauthenticatedConnError(
                            UnauthenticatedConnError::InvalidCookieLength,
                        ),
                    );
                }
                let request = make_auth_challenge_request(nonce.as_slice());
                Ok(
                    (
                        Authentication::AwaitChallenge {
                            cookie: slice_to_vec(cookie.as_slice()),
                            nonce: *nonce,
                        },
                        request,
                    ),
                )
            },
        }
    }

    /// Begins an authentication with `data` and 32 random bytes as the
    /// nonce of the client. With some nonce, what is given is what
    /// [`Authentication::start`] gives.
    pub fn begin(data: &TorAuthData) -> (res: Result<(Authentication, Vec<u8>), ConnError>)
        ensures
            match res {
                Ok((state, request)) => !has_bad_cookie(*data) && exists|nonce: Seq<u8>|
                    {
                        &&& nonce.len() == 32
                        &&& request@ == #[trigger] first_request(*data, nonce)
                        &&& state.kept() == match *data {
                            TorAuthData::SafeCookie(cookie) => Some((cookie@, nonce)),
                            _ => None::<(Seq<u8>, Seq<u8>)>,
                        }
                    },
                Err(e) => has_bad_cookie(*data) && e == ConnError::UnauthenticatedConnError(
                    UnauthenticatedConnError::InvalidCookieLength,
                ),
            },
    {
        let nonce = random_32();
        let res = Authentication::start(data, &nonce);
        assert(nonce@.len() == 32);
        res
    }

    /// Takes the reply to what was written last.
    ///
    /// Where the challenge is awaited, the reply is answered as
    /// [`challenge_answer`] says. Where the status is awaited, the status
    /// 250 ends the authentication and any other status fails it.
    pub fn on_reply(self, code: u16, lines: &Vec<String>) -> (res: Result<AuthProgress, ConnError>)
        ensures
            match self.kept() {
                Some((cookie, nonce)) => match challenge_answer(
                    cookie,
                    nonce,
                    code,
                    line_bytes(lines@),
                ) {
                    Ok(answer) => res matches Ok(AuthProgress::Send(next, bytes)) && next.kept()
                        is None && bytes@ == answer,
                    Err(e) => res matches Err(err) && err == e,
                },
                None => if code == 250 {
                    res matches Ok(AuthProgress::Done)
                } else {
                    res matches Err(err) && err == ConnError::InvalidResponseCode(code)
                },
            },
    {
        match self {
            Authentication::AwaitChallenge { cookie, nonce } => {
                let challenge = match parse_auth_challenge(code, lines) {
                    Ok(challenge) => challenge,
                    Err(e) => {
                        return Err(e);
                    },
                };
                match check_server_hash(cookie.as_slice(), nonce.as_slice(), &challenge) {
                    Ok(()) => {},
                    Err(e) => {
                        return Err(e);
                    },
                }
                let answer = make_safe_cookie_request(
                    cookie.as_slice(),
                    nonce.as_slice(),
                    challenge.server_nonce.as_slice(),
                );
                Ok(AuthProgress::Send(Authentication::AwaitStatus, answer))
            },
            Authentication::AwaitStatus => match expect_250(code) {
                Ok(()) => Ok(AuthProgress::Done),
                Err(e) => Err(e),
            },
        }
    }
}

/// What a connection knows of the protocol info: whether it was read, and
/// what it said, as long as that is not taken out.
pub struct ProtocolInfoState {
    was_loaded: bool,
    info: Option<TorPreAuthInfo>,
}

impl ProtocolInfoState {
    /// Whether the protocol info was read.
    pub closed spec fn was_loaded(&self) -> bool {
        self.was_loaded
    }

    /// The protocol info that is kept.
    pub closed spec fn info(&self) -> Option<TorPreAuthInfo> {
        self.info
    }

    /// Nothing was read yet.
    pub fn new() -> (res: ProtocolInfoState)
        ensures
            !res.was_loaded(),
            res.info() is None,
    {
        ProtocolInfoState { was_loaded: false, info: None }
    }

    /// The protocol info, if it was read and not taken.
    pub fn get(&self) -> (res: Option<&TorPreAuthInfo>)
        ensures
            match res {
                Some(info) => self.info() == Some(*info),
                None => self.info() is None,
            },
    {
        self.info.as_ref()
    }

    /// Takes the protocol info out, if it was read and not taken. It
    /// stays read.
    pub fn take(&mut self) -> (res: Option<TorPreAuthInfo>)
        ensures
            res == old(self).info(),
            final(self).info() is None,
            final(self).was_loaded() == old(self).was_loaded(),
    {
        self.info.take()
    }

    /// The command that asks for the protocol info. It is given once:
    /// after the protocol info was read it is refused.
    pub fn request(&self) -> (res: Result<Vec<u8>, ConnError>)
        ensures
            match res {
                Ok(bytes) => !self.was_loaded() && bytes@ == protocol_info_request(),
                Err(e) => self.was_loaded() && e == ConnError::UnauthenticatedConnError(
                    UnauthenticatedConnError::InfoFetchedTwice,
                ),
            },
    {
        if self.was_loaded {
            return Err(
                ConnError::UnauthenticatedConnError(UnauthenticatedConnError::InfoFetchedTwice),
            );
        }
        Ok(slice_to_vec("PROTOCOLINFO 1\r\n".as_bytes()))
    }

    /// Takes the reply to `PROTOCOLINFO` and keeps what it says. A reply
    /// that is refused changes nothing.
    pub fn on_reply(&mut self, code: u16, lines: &Vec<String>) -> (res: Result<(), ConnError>)
        ensures
            match protocol_info(code, line_bytes(lines@)) {
                Ok(info) => {
                    &&& res is Ok
                    &&& final(self).was_loaded()
                    &&& final(self).info() matches Some(kept) && kept@ == info
                },
                Err(e) => res == Err::<(), ConnError>(e) && *final(self) == *old(self),
            },
    {
        match parse_protocol_info(code, lines) {
            Ok(info) => {
                self.was_loaded = true;
                self.info = Some(info);
                Ok(())
            },
            Err(e) => Err(e),
        }
    }
}

/// A connection before authentication.
pub struct UnauthenticatedConn {
    conn: Conn,
    info: ProtocolInfoState,
}

impl UnauthenticatedConn {
    /// The transport of the connection.
    pub closed spec fn conn(&self) -> Conn {
        self.conn
    }

    /// Whether the protocol info was read.
    pub closed spec fn was_protocol_info_loaded(&self) -> bool {
        self.info.was_loaded()
    }

    /// The protocol info that is kept.
    pub closed spec fn protocol_info(&self) -> Option<TorPreAuthInfo> {
        self.info.info()
    }

    /// The transport is well formed.
    pub open spec fn wf(&self) -> bool {
        self.conn().wf()
    }

    /// A connection over `conn` on which nothing has happened yet.
    pub fn new(conn: Conn) -> (res: UnauthenticatedConn)
        requires
            conn.wf(),
        ensures
            res.wf(),
            res.conn() == conn,
            !res.was_protocol_info_loaded(),
            res.protocol_info() is None,
    {
        UnauthenticatedConn { conn, info: ProtocolInfoState::new() }
    }

    /// Puts in bytes that the peer has sent.
    pub fn push_input(&mut self, data: &[u8])
        requires
            old(self).wf(),
        ensures
            final(self).wf(),
            final(self).conn().unread() == old(self).conn().unread() + data@,
            final(self).conn().written() == old(self).conn().written(),
            final(self).conn().limit() == old(self).conn().limit(),
            final(self).was_protocol_info_loaded() == old(self).was_protocol_info_loaded(),
            final(self).protocol_info() == old(self).protocol_info(),
    {
        self.conn.push_input(data);
    }

    /// Takes out the bytes written so far.
    pub fn take_output(&mut self) -> (res: Vec<u8>)
        requires
            old(self).wf(),
        ensures
            final(self).wf(),
            res@ == old(self).conn().written(),
            final(self).conn().written() == Seq::<u8>::empty(),
            final(self).conn().unread() == old(self).conn().unread(),
            final(self).conn().limit() == old(self).conn().limit(),
            final(self).was_protocol_info_loaded() == old(self).was_protocol_info_loaded(),
            final(self).protocol_info() == old(self).protocol_info(),
    {
        self.conn.take_output()
    }

    /// The protocol info, if it was read and not taken.
    pub fn get_protocol_info(&self) -> (res: Option<&TorPreAuthInfo>)
        ensures
            match res {
                Some(info) => self.protocol_info() == Some(*info),
                None => self.protocol_info() is None,
            },
    {
        self.info.get()
    }

    /// Takes the protocol info out of the connection, if it was read and
    /// not taken.
    pub fn take_protocol_info(&mut self) -> (res: Option<TorPreAuthInfo>)
        ensures
            res == old(self).protocol_info(),
            final(self).protocol_info() is None,
            final(self).conn() == old(self).conn(),
            final(self).was_protocol_info_loaded() == old(self).was_protocol_info_loaded(),
    {
        self.info.take()
    }

    /// Reads the reply to `PROTOCOLINFO` and keeps what it says.
    pub fn read_protocol_info(&mut self) -> (res: Result<(), ConnError>)
        requires
            old(self).wf(),
        ensures
            final(self).wf(),
            final(self).conn().written() == old(self).conn().written(),
            final(self).conn().limit() == old(self).conn().limit(),
            match received(old(self).conn().unread(), old(self).conn().limit()) {
                Ok((code, lines)) => {
                    &&& final(self).conn().unread() == left_unread(
                        old(self).conn().unread(),
                        old(self).conn().limit(),
                    )
                    &&& match protocol_info(code, lines) {
                        Ok(info) => {
                            &&& res is Ok
                            &&& final(self).was_protocol_info_loaded()
                            &&& final(self).protocol_info() matches Some(kept) && kept@ == info
                        },
                        Err(e) => {
                            &&& res == Err::<(), ConnError>(e)
                            &&& final(self).was_protocol_info_loaded() == old(self).was_protocol_info_loaded()
                            &&& final(self).protocol_info() == old(self).protocol_info()
                        },
                    }
                },
                Err(e) => {
                    &&& res == Err::<(), ConnError>(e)
                    &&& final(self).was_protocol_info_loaded() == old(self).was_protocol_info_loaded()
                    &&& final(self).protocol_info() == old(self).protocol_info()
                },
            },
    {
        let (code, lines) = match self.conn.receive_data() {
            Ok(reply) => reply,
            Err(e) => {
                return Err(e);
            },
        };
        self.info.on_reply(code, &lines)
    }

    /// Asks for the protocol info and keeps the answer.
    ///
    /// This can be done once. On a connection that has read the protocol
    /// info nothing is written and nothing is read.
    pub fn load_protocol_info(&mut self) -> (res: Result<(), ConnError>)
        requires
            old(self).wf(),
        ensures
            final(self).wf(),
            final(self).conn().limit() == old(self).conn().limit(),
            old(self).was_protocol_info_loaded() ==> {
                &&& res == Err::<(), ConnError>(
                    ConnError::UnauthenticatedConnError(UnauthenticatedConnError::InfoFetchedTwice),
                )
                &&& *final(self) == *old(self)
            },
            !old(self).was_protocol_info_loaded() ==> {
                &&& final(self).conn().written() == old(self).conn().written()
                    + protocol_info_request()
                &&& match received(old(self).conn().unread(), old(self).conn().limit()) {
                    Ok((code, lines)) => {
                        &&& final(self).conn().unread() == left_unread(
                            old(self).conn().unread(),
                            old(self).conn().limit(),
                        )
                        &&& match protocol_info(code, lines) {
                            Ok(info) => {
                                &&& res is Ok
                                &&& final(self).was_protocol_info_loaded()
                                &&& final(self).protocol_info() matches Some(kept) && kept@
                                    == info
                            },
                            Err(e) => {
                                &&& res == Err::<(), ConnError>(e)
                                &&& !final(self).was_protocol_info_loaded()
                                &&& final(self).protocol_info() == old(self).protocol_info()
                            },
                        }
                    },
                    Err(e) => {
                        &&& res == Err::<(), ConnError>(e)
                        &&& !final(self).was_protocol_info_loaded()
                        &&& final(self).protocol_info() == old(self).protocol_info()
                    },
                }
            },
    {
        let request = match self.info.request() {
            Ok(request) => request,
            Err(e) => {
                return Err(e);
            },
        };
        let _ = self.conn.write_data(request.as_slice());
        self.read_protocol_info()
    }

    /// Reads the reply to `AUTHCHALLENGE`.
    pub fn read_auth_challenge_response(&mut self) -> (res: Result<
        AuthChallengeResponse,
        ConnError,
    >)
        requires
            old(self).wf(),
        ensures
            final(self).wf(),
            final(self).conn().written() == old(self).conn().written(),
            final(self).conn().limit() == old(self).conn().limit(),
            final(self).was_protocol_info_loaded() == old(self).was_protocol_info_loaded(),
            final(self).protocol_info() == old(self).protocol_info(),
            match received(old(self).conn().unread(), old(self).conn().limit()) {
                Ok((code, lines)) => {
                    &&& final(self).conn().unread() == left_unread(
                        old(self).conn().unread(),
                        old(self).conn().limit(),
                    )
                    &&& match res {
                        Ok(r) => auth_challenge(code, lines) == Ok::<
                            (Seq<u8>, Seq<u8>),
                            ConnError,
                        >((r.server_hash@, r.server_nonce@)),
                        Err(e) => auth_challenge(code, lines) == Err::<
                            (Seq<u8>, Seq<u8>),
                            ConnError,
                        >(e),
                    }
                },
                Err(e) => res matches Err(err) && err == e,
            },
    {
        let (code, lines) = match self.conn.receive_data() {
            Ok(reply) => reply,
            Err(e) => {
                return Err(e);
            },
        };
        parse_auth_challenge(code, &lines)
    }

    /// Reads a reply and tells whether its status is 250.
    fn read_status(&mut self) -> (res: Result<(), ConnError>)
        requires
            old(self).wf(),
        ensures
            final(self).wf(),
            final(self).conn().written() == old(self).conn().written(),
            final(self).conn().limit() == old(self).conn().limit(),
            final(self).was_protocol_info_loaded() == old(self).was_protocol_info_loaded(),
            final(self).protocol_info() == old(self).protocol_info(),
            res == status_250(received(old(self).conn().unread(), old(self).conn().limit())),
            res is Ok ==> final(self).conn().unread() == left_unread(
                old(self).conn().unread(),
                old(self).conn().limit(),
            ),
    {
        match self.conn.receive_data() {
            Ok((code, _)) => expect_250(code),
            Err(e) => Err(e),
        }
    }

    /// Authenticates with `data`, with `nonce` as the nonce of the client
    /// where the procedure needs one.
    ///
    /// What is written and how it ends is what [`authentication`] says.
    /// Whether `data` fits what Tor accepts is not looked at: Tor refuses
    /// what it does not accept.
    pub fn authenticate_with_nonce(&mut self, data: &TorAuthData, nonce: &[u8; 32]) -> (res:
        Result<(), ConnError>)
        requires
            old(self).wf(),
        ensures
            final(self).wf(),
            final(self).conn().limit() == old(self).conn().limit(),
            final(self).was_protocol_info_loaded() == old(self).was_protocol_info_loaded(),
            final(self).protocol_info() == old(self).protocol_info(),
            final(self).conn().written() == old(self).conn().written() + authentication(
                *data,
                nonce@,
                old(self).conn().unread(),
                old(self).conn().limit(),
            ).0,
            res == authentication(
                *data,
                nonce@,
                old(self).conn().unread(),
                old(self).conn().limit(),
            ).1,
            has_bad_cookie(*data) ==> final(self).conn() == old(self).conn(),
            res is Ok ==> final(self).conn().unread() == unread_after_authentication(
                *data,
                old(self).conn().unread(),
                old(self).conn().limit(),
            ),
    {
        let (state, request) = match Authentication::start(data, nonce) {
            Ok(begun) => begun,
            Err(e) => {
                assert(old(self).conn().written() + Seq::<u8>::empty() =~= old(self).conn().written());
                return Err(e);
            },
        };
        let _ = self.conn.write_data(request.as_slice());
        let (code, lines) = match self.conn.receive_data() {
            Ok(reply) => reply,
            Err(e) => {
                return Err(e);
            },
        };
        match state.on_reply(code, &lines) {
            Ok(AuthProgress::Done) => Ok(()),
            Ok(AuthProgress::Send(_, answer)) => {
                let _ = self.conn.write_data(answer.as_slice());
                assert(self.conn().written() =~= old(self).conn().written() + (request@
                    + answer@));
                self.read_status()
            },
            Err(e) => Err(e),
        }
    }

    /// Authenticates with `data`. Where the procedure needs a nonce of
    /// the client, 32 random bytes are taken.
    ///
    /// With some nonce, what is written and how it ends is what
    /// [`authentication`] says; the procedures that need no nonce are
    /// stated without one. The hash of the server is made over the nonce,
    /// so the safe procedure can go well only with a reply that comes
    /// after the challenge was asked for: where the bytes are moved by
    /// hand, it is run in steps, with [`Authentication`].
    pub fn authenticate(&mut self, data: &TorAuthData) -> (res: Result<(), ConnError>)
        requires
            old(self).wf(),
        ensures
            final(self).wf(),
            final(self).conn().limit() == old(self).conn().limit(),
            final(self).was_protocol_info_loaded() == old(self).was_protocol_info_loaded(),
            final(self).protocol_info() == old(self).protocol_info(),
            exists|nonce: Seq<u8>|
                {
                    &&& nonce.len() == 32
                    &&& final(self).conn().written() == old(self).conn().written()
                        + #[trigger] authentication(
                        *data,
                        nonce,
                        old(self).conn().unread(),
                        old(self).conn().limit(),
                    ).0
                    &&& res == authentication(
                        *data,
                        nonce,
                        old(self).conn().unread(),
                        old(self).conn().limit(),
                    ).1
                },
            !(*data is SafeCookie) && !has_bad_cookie(*data) ==> {
                &&& final(self).conn().written() == old(self).conn().written() + first_request(
                    *data,
                    Seq::<u8>::empty(),
                )
                &&& res == status_250(
                    received(old(self).conn().unread(), old(self).conn().limit()),
                )
            },
            has_bad_cookie(*data) ==> {
                &&& final(self).conn() == old(self).conn()
                &&& res == Err::<(), ConnError>(
                    ConnError::UnauthenticatedConnError(
                        UnauthenticatedConnError::InvalidCookieLength,
                    ),
                )
            },
            res is Ok ==> final(self).conn().unread() == unread_after_authentication(
                *data,
                old(self).conn().unread(),
                old(self).conn().limit(),
            ),
    {
        let nonce = random_32();
        let res = self.authenticate_with_nonce(data, &nonce);
        res
    }

    /// Turns the connection into an authenticated one. This is meant to
    /// follow an authentication that went well; it is not looked at
    /// whether one did.
    pub fn into_authenticated(self) -> (res: AuthenticatedConn)
        requires
            self.wf(),
        ensures
            res.wf(),
            res.conn() == self.conn(),
            res.pending_events().len() == 0,
    {
        AuthenticatedConn::from(self.conn)
    }
}

/// An authentication by the safe procedure goes well only with a server
/// that knows the cookie: the first reply is a challenge whose hash is the
/// one that the cookie and the two nonces give, and what the client
/// writes after its request for the challenge is its own hash over them.
pub proof fn lemma_safe_cookie_checks_the_server(
    data: TorAuthData,
    nonce: Seq<u8>,
    unread: Seq<u8>,
    limit: nat,
)
    requires
        data is SafeCookie,
        authentication(data, nonce, unread, limit).1 is Ok,
    ensures
        data.cookie().len() == COOKIE_LENGTH,
        received(unread, limit) matches Ok((code, lines)) && auth_challenge(code, lines) matches Ok(
            (hash, server_nonce),
        ) && hash == server_hash(data.cookie(), nonce, server_nonce) && authentication(
            data,
            nonce,
            unread,
            limit,
        ).0 == auth_challenge_request(nonce) + safe_cookie_request(
            data.cookie(),
            nonce,
            server_nonce,
        ),
{
}

/// A server that answers the challenge with another hash than the one
/// that the cookie and the two nonces give is refused, and nothing is
/// written after the request for the challenge.
pub proof fn lemma_wrong_server_hash_is_refused(
    data: TorAuthData,
    nonce: Seq<u8>,
    unread: Seq<u8>,
    limit: nat,
    hash: Seq<u8>,
    server_nonce: Seq<u8>,
)
    requires
        data is SafeCookie,
        data.cookie().len() == COOKIE_LENGTH,
        received(unread, limit) matches Ok((code, lines)) && auth_challenge(code, lines) == Ok::<
            (Seq<u8>, Seq<u8>),
            ConnError,
        >((hash, server_nonce)),
        hash != server_hash(data.cookie(), nonce, server_nonce),
    ensures
        authentication(data, nonce, unread, limit) == (
            auth_challenge_request(nonce),
            Err::<(), ConnError>(
                ConnError::UnauthenticatedConnError(UnauthenticatedConnError::ServerHashMismatch),
            ),
        ),
{
}

} // verus!

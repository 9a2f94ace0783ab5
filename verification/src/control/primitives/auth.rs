//! Authentication methods and the data they need.

use crate::control::conn::conn::UnauthenticatedConnError;
use crate::utils::text::bytes_eq;
use vstd::prelude::*;
use vstd::string::StringSliceAdditionalSpecFns;
use vstd::utf8::encode_utf8;

verus! {

/// The length of a cookie in bytes.
pub const COOKIE_LENGTH: usize = 32;

/// A way to authenticate that Tor may accept.
#[derive(Debug, Copy, Clone, PartialEq, Eq, Structural, PartialOrd, Ord, Hash)]
pub enum TorAuthMethod {
    /// No authentication: the bare command is enough.
    Null,
    /// A password is needed.
    HashedPassword,
    /// The content of the cookie file is needed.
    Cookie,
    /// The cookie is proved by a hash over it and two nonces.
    SafeCookie,
}

/// The method that a name of the protocol stands for.
pub open spec fn method_of(name: Seq<u8>) -> Option<TorAuthMethod> {
    if name == "NULL".spec_bytes() {
        Some(TorAuthMethod::Null)
    } else if name == "HASHEDPASSWORD".spec_bytes() {
        Some(TorAuthMethod::HashedPassword)
    } else if name == "COOKIE".spec_bytes() {
        Some(TorAuthMethod::Cookie)
    } else if name == "SAFECOOKIE".spec_bytes() {
        Some(TorAuthMethod::SafeCookie)
    } else {
        None
    }
}

impl TorAuthMethod {
    /// Reads the name of a method as the protocol spells it.
    pub fn from_bytes(name: &[u8]) -> (res: Option<TorAuthMethod>)
        ensures
            res == method_of(name@),
    {
        if bytes_eq(name, "NULL".as_bytes()) {
            Some(TorAuthMethod::Null)
        } else if bytes_eq(name, "HASHEDPASSWORD".as_bytes()) {
            Some(TorAuthMethod::HashedPassword)
        } else if bytes_eq(name, "COOKIE".as_bytes()) {
            Some(TorAuthMethod::Cookie)
        } else if bytes_eq(name, "SAFECOOKIE".as_bytes()) {
            Some(TorAuthMethod::SafeCookie)
        } else {
            None
        }
    }

    /// Reads the name of a method: `NULL`, `HASHEDPASSWORD`, `COOKIE` or
    /// `SAFECOOKIE`. Any other text is refused.
    pub fn from_str(s: &str) -> (res: Result<TorAuthMethod, ()>)
        ensures
            match res {
                Ok(m) => method_of(s.spec_bytes()) == Some(m),
                Err(_) => method_of(s.spec_bytes()) is None,
            },
    {
        match TorAuthMethod::from_bytes(s.as_bytes()) {
            Some(m) => Ok(m),
            None => Err(()),
        }
    }
}

/// A set of authentication methods.
#[derive(Debug, Copy, Clone, PartialEq, Eq, Structural)]
pub struct AuthMethodSet {
    null: bool,
    hashed_password: bool,
    cookie: bool,
    safe_cookie: bool,
}

impl View for AuthMethodSet {
    type V = Set<TorAuthMethod>;

    closed spec fn view(&self) -> Set<TorAuthMethod> {
        Set::new(
            |m: TorAuthMethod|
                match m {
                    TorAuthMethod::Null => self.null,
                    TorAuthMethod::HashedPassword => self.hashed_password,
                    TorAuthMethod::Cookie => self.cookie,
                    TorAuthMethod::SafeCookie => self.safe_cookie,
                },
        )
    }
}

impl AuthMethodSet {
    /// The empty set.
    pub fn new() -> (res: AuthMethodSet)
        ensures
            res@ == Set::<TorAuthMethod>::empty(),
    {
        let res = AuthMethodSet {
            null: false,
            hashed_password: false,
            cookie: false,
            safe_cookie: false,
        };
        res
    }

    /// Tells whether `method` is in the set.
    pub fn contains(&self, method: &TorAuthMethod) -> (res: bool)
        ensures
            res == self@.contains(*method),
    {
        match method {
            TorAuthMethod::Null => self.null,
            TorAuthMethod::HashedPassword => self.hashed_password,
            TorAuthMethod::Cookie => self.cookie,
            TorAuthMethod::SafeCookie => self.safe_cookie,
        }
    }

    /// Puts `method` into the set, and tells whether it was missing.
    pub fn insert(&mut self, method: TorAuthMethod) -> (res: bool)
        ensures
            final(self)@ == old(self)@.insert(method),
            res == !old(self)@.contains(method),
    {
        let missing = !self.contains(&method);
        match method {
            TorAuthMethod::Null => {
                self.null = true;
            },
            TorAuthMethod::HashedPassword => {
                self.hashed_password = true;
            },
            TorAuthMethod::Cookie => {
                self.cookie = true;
            },
            TorAuthMethod::SafeCookie => {
                self.safe_cookie = true;
            },
        }
        missing
    }

    /// Tells whether the set is empty.
    pub fn is_empty(&self) -> (res: bool)
        ensures
            res == (self@ == Set::<TorAuthMethod>::empty()),
    {
        let res = !self.null && !self.hashed_password && !self.cookie && !self.safe_cookie;
        proof {
            if res {
                assert(self@ =~= Set::<TorAuthMethod>::empty());
            } else {
                assert(self@.contains(TorAuthMethod::Null) || self@.contains(
                    TorAuthMethod::HashedPassword,
                ) || self@.contains(TorAuthMethod::Cookie) || self@.contains(
                    TorAuthMethod::SafeCookie,
                ));
            }
        }
        res
    }
}

/// What Tor tells about itself before authentication.
#[derive(Debug, Clone, PartialEq, Eq)]
pub struct TorPreAuthInfo {
    pub tor_version: String,
    pub auth_methods: AuthMethodSet,
    pub cookie_file: Option<String>,
}

/// What Tor tells about itself before authentication, as bytes.
pub struct PreAuthInfo {
    pub tor_version: Seq<u8>,
    pub auth_methods: Set<TorAuthMethod>,
    pub cookie_file: Option<Seq<u8>>,
}

impl View for TorPreAuthInfo {
    type V = PreAuthInfo;

    open spec fn view(&self) -> PreAuthInfo {
        PreAuthInfo {
            tor_version: encode_utf8(self.tor_version@),
            auth_methods: self.auth_methods@,
            cookie_file: match self.cookie_file {
                Some(path) => Some(encode_utf8(path@)),
                None => None,
            },
        }
    }
}

/// The method that can be used without the help of the user: none at all
/// if Tor asks for none, else the safe cookie, else the cookie, where Tor
/// tells the cookie file. A password is never chosen.
pub open spec fn automatic_method(info: PreAuthInfo) -> Option<TorAuthMethod> {
    if info.auth_methods.contains(TorAuthMethod::Null) {
        Some(TorAuthMethod::Null)
    } else if info.auth_methods.contains(TorAuthMethod::SafeCookie) && info.cookie_file is Some {
        Some(TorAuthMethod::SafeCookie)
    } else if info.auth_methods.contains(TorAuthMethod::Cookie) && info.cookie_file is Some {
        Some(TorAuthMethod::Cookie)
    } else {
        None
    }
}

impl TorPreAuthInfo {
    /// Chooses the method for [`TorPreAuthInfo::make_auth_data`].
    pub fn automatic_auth_method(&self) -> (res: Option<TorAuthMethod>)
        ensures
            res == automatic_method(self@),
    {
        if self.auth_methods.contains(&TorAuthMethod::Null) {
            Some(TorAuthMethod::Null)
        } else if self.auth_methods.contains(&TorAuthMethod::SafeCookie)
            && self.cookie_file.is_some() {
            Some(TorAuthMethod::SafeCookie)
        } else if self.auth_methods.contains(&TorAuthMethod::Cookie) && self.cookie_file.is_some() {
            Some(TorAuthMethod::Cookie)
        } else {
            None
        }
    }

    /// The cookie file, where the method that [`automatic_method`] chooses
    /// needs the cookie: that is what is to be read before
    /// [`TorPreAuthInfo::make_auth_data`] is called.
    pub fn cookie_file_needed(&self) -> (res: Option<&String>)
        ensures
            match automatic_method(self@) {
                Some(TorAuthMethod::SafeCookie) | Some(TorAuthMethod::Cookie) => res matches Some(
                    path,
                ) && Some(*path) == self.cookie_file,
                _ => res is None,
            },
    {
        match self.automatic_auth_method() {
            Some(TorAuthMethod::SafeCookie) | Some(TorAuthMethod::Cookie) => {
                self.cookie_file.as_ref()
            },
            _ => None,
        }
    }

    /// Makes the data to authenticate with, by the method that
    /// [`automatic_method`] chooses. `cookie` is what was read from the
    /// cookie file; it is looked at only where a cookie is needed, and must
    /// then hold 32 bytes.
    pub fn make_auth_data(&self, cookie: &[u8]) -> (res: Result<
        Option<TorAuthData>,
        UnauthenticatedConnError,
    >)
        ensures
            match automatic_method(self@) {
                None => res matches Ok(None),
                Some(TorAuthMethod::Null) => res matches Ok(Some(TorAuthData::Null)),
                Some(method) => if cookie@.len() == COOKIE_LENGTH {
                    res matches Ok(Some(data)) && data.method() == method && data.cookie()
                        == cookie@
                } else {
                    res matches Err(UnauthenticatedConnError::InvalidCookieLength)
                },
            },
    {
        match self.automatic_auth_method() {
            None => Ok(None),
            Some(TorAuthMethod::Null) => Ok(Some(TorAuthData::Null)),
            Some(method) => {
                if cookie.len() != COOKIE_LENGTH {
                    return Err(UnauthenticatedConnError::InvalidCookieLength);
                }
                let bytes = vstd::slice::slice_to_vec(cookie);
                match method {
                    TorAuthMethod::SafeCookie => Ok(Some(TorAuthData::SafeCookie(bytes))),
                    _ => Ok(Some(TorAuthData::Cookie(bytes))),
                }
            },
        }
    }
}

/// What is needed to authenticate a connection.
#[derive(Debug, Clone, PartialEq, Eq)]
pub enum TorAuthData {
    /// Nothing is needed.
    Null,
    /// The password.
    HashedPassword(String),
    /// The content of the cookie file.
    Cookie(Vec<u8>),
    /// The content of the cookie file, for the safe procedure.
    SafeCookie(Vec<u8>),
}

impl TorAuthData {
    /// The method that the data is for.
    pub open spec fn method(&self) -> TorAuthMethod {
        match self {
            TorAuthData::Null => TorAuthMethod::Null,
            TorAuthData::HashedPassword(_) => TorAuthMethod::HashedPassword,
            TorAuthData::Cookie(_) => TorAuthMethod::Cookie,
            TorAuthData::SafeCookie(_) => TorAuthMethod::SafeCookie,
        }
    }

    /// The cookie that the data holds, if any.
    pub open spec fn cookie(&self) -> Seq<u8> {
        match self {
            TorAuthData::Cookie(c) => c@,
            TorAuthData::SafeCookie(c) => c@,
            _ => Seq::empty(),
        }
    }

    /// The method that the data is for.
    pub fn get_method(&self) -> (res: TorAuthMethod)
        ensures
            res == self.method(),
    {
        match self {
            TorAuthData::Null => TorAuthMethod::Null,
            TorAuthData::HashedPassword(_) => TorAuthMethod::HashedPassword,
            TorAuthData::Cookie(_) => TorAuthMethod::Cookie,
            TorAuthData::SafeCookie(_) => TorAuthMethod::SafeCookie,
        }
    }
}

} // verus!

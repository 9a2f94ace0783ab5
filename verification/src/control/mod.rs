//! The protocol engine: replies, connections before and after
//! authentication, and the values they exchange.

pub mod conn;
pub mod primitives;

pub use conn::{
    AuthenticatedConn, AuthenticatedConnError, Conn, ConnError, KeyedValues, ReplyParser,
    UnauthenticatedConn, UnauthenticatedConnError,
};
pub use primitives::{
    AsyncEvent, AsyncEventKind, AuthMethodSet, TorAuthData, TorAuthMethod, TorErrorKind,
    TorPreAuthInfo, TorSignal, COOKIE_LENGTH,
};

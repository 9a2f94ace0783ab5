//! Connections to a Tor control port.

pub mod authenticated_conn;
pub mod commands;
pub mod conn;
pub mod framing;
pub mod protocol_info;
pub mod responses;
pub mod unauthenticated_conn;

pub use authenticated_conn::AuthenticatedConn;
pub use conn::{AuthenticatedConnError, Conn, ConnError, ReplyParser, UnauthenticatedConnError};
pub use responses::KeyedValues;
pub use unauthenticated_conn::UnauthenticatedConn;

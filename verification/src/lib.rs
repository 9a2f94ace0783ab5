//! A client library for the Tor control protocol: framing of replies, the
//! quoting codec, the typed commands of a controller, and the identities of
//! onion services.
//!
//! The library performs no I/O. A connection keeps the bytes it has received
//! and the bytes it wants sent in memory; the embedding program moves them
//! between the connection and its transport.

pub mod control;
pub mod fuzz;
pub mod onion;
pub mod utils;

//! The legacy onion services of version 2.

pub mod key;
pub mod onion;

pub use key::{TorPublicKeyV2, TorSecretKeyV2};
pub use onion::{OnionAddressV2, OnionAddressV2ParseError, TORV2_ONION_ADDRESS_LENGTH_BYTES};

//! Onion services of version 3.

pub mod key;
pub mod onion;

pub use key::{
    InvalidPublicKey, TorPublicKeyV3, TorSecretKeyV3, TORV3_PUBLIC_KEY_LENGTH,
    TORV3_SECRET_KEY_LENGTH,
};
pub use onion::{OnionAddressParseError, OnionAddressV3, TORV3_ONION_ADDRESS_LENGTH_BYTES};

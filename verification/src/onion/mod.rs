//! Identities of onion services: keys and addresses.

pub mod builder;
pub mod common;
pub mod v2;
pub mod v3;

pub use builder::{
    OnionServiceBuilder, OnionServiceFlag, OnionServiceFlags, RunningOnionService,
    RunningOnionServiceKeyPair,
};
pub use common::{OnionAddress, TorPublicKey, TorSecretKey};
pub use v2::{OnionAddressV2, OnionAddressV2ParseError, TorPublicKeyV2, TorSecretKeyV2};
pub use v3::{
    OnionAddressParseError, OnionAddressV3, TorPublicKeyV3, TorSecretKeyV3,
    TORV3_ONION_ADDRESS_LENGTH_BYTES, TORV3_PUBLIC_KEY_LENGTH, TORV3_SECRET_KEY_LENGTH,
};

//! Keys and addresses of any version.

use crate::onion::v3::key::{TorPublicKeyV3, TorSecretKeyV3};
use crate::onion::v3::onion::{
    address_text, parse_address, OnionAddressParseError, OnionAddressV3,
};
use vstd::prelude::*;
use vstd::utf8::encode_utf8;

verus! {

/// The secret key of an onion service.
#[derive(Clone, PartialEq, Eq)]
pub enum TorSecretKey {
    V3(TorSecretKeyV3),
}

/// The address of an onion service.
#[derive(Debug, Clone, PartialEq, Eq)]
pub enum OnionAddress {
    V3(OnionAddressV3),
}

/// The public key of an onion service.
#[derive(Debug, Clone, PartialEq, Eq)]
pub enum TorPublicKey {
    V3(TorPublicKeyV3),
}

impl OnionAddress {
    /// The text of the address without `.onion`.
    pub fn get_address_without_dot_onion(&self) -> (res: String)
        ensures
            match self {
                OnionAddress::V3(a) => encode_utf8(res@) == address_text(a@) && parse_address(
                    encode_utf8(res@),
                ) == Ok::<Seq<u8>, OnionAddressParseError>(a@),
            },
    {
        match self {
            OnionAddress::V3(a) => a.get_address_without_dot_onion(),
        }
    }

    /// The address as it is shown, with `.onion`.
    pub fn to_string(&self) -> (res: String)
        ensures
            match self {
                OnionAddress::V3(a) => res@ == a.shown(),
            },
    {
        match self {
            OnionAddress::V3(a) => a.to_string(),
        }
    }
}

} // verus!

//! The keys of an onion service of version 2.
//!
//! The keys are RSA keys of 1024 bits. They are held as their PKCS#1
//! encodings: that of the private key is what `ADD_ONION` takes. The keys
//! are made by the crate `rsa` and are not looked into here.

use crate::utils::codec::{base64_data, base64_encode, base64_text, is_base64};
use crate::utils::crypto::rsa_generate_1024;
use vstd::prelude::*;
use vstd::utf8::encode_utf8;

verus! {

/// The greatest length of an encoded key that is taken.
pub const MAX_KEY_LENGTH: usize = 0x10000;

/// The public key of an onion service of version 2, as the PKCS#1
/// encoding of an RSA public key.
#[derive(Debug, Clone, PartialEq, Eq)]
pub struct TorPublicKeyV2 {
    der: Vec<u8>,
}

impl View for TorPublicKeyV2 {
    type V = Seq<u8>;

    closed spec fn view(&self) -> Seq<u8> {
        self.der@
    }
}

impl TorPublicKeyV2 {
    /// The encoding of the key.
    pub fn as_der(&self) -> (res: &Vec<u8>)
        ensures
            res@ == self@,
    {
        &self.der
    }
}

/// The secret key of an onion service of version 2, as the PKCS#1
/// encoding of an RSA private key, with the encoding of its public key.
#[derive(PartialEq, Eq)]
pub struct TorSecretKeyV2 {
    der: Vec<u8>,
    public: Vec<u8>,
}

impl View for TorSecretKeyV2 {
    type V = Seq<u8>;

    closed spec fn view(&self) -> Seq<u8> {
        self.der@
    }
}

impl TorSecretKeyV2 {
    /// The key is not longer than [`MAX_KEY_LENGTH`].
    #[verifier::type_invariant]
    spec fn fits(self) -> bool {
        self.der@.len() <= MAX_KEY_LENGTH
    }

    /// The encoding of the public key.
    pub closed spec fn public_der(&self) -> Seq<u8> {
        self.public@
    }

    /// A fresh key of 1024 bits. Nothing is given when the key cannot be
    /// made or encoded. What was made is taken as
    /// [`TorSecretKeyV2::from_der`] takes any two encodings.
    pub fn generate() -> (res: Option<TorSecretKeyV2>)
        ensures
            res matches Some(key) ==> key@.len() <= MAX_KEY_LENGTH,
    {
        match rsa_generate_1024() {
            Some((der, public)) => TorSecretKeyV2::from_der(der, public),
            None => None,
        }
    }

    /// The key with the encoding `der` and the public key with the
    /// encoding `public`, unless `der` is longer than [`MAX_KEY_LENGTH`].
    /// That the two are encodings of keys, and of one pair, is not looked
    /// at.
    pub fn from_der(der: Vec<u8>, public: Vec<u8>) -> (res: Option<TorSecretKeyV2>)
        ensures
            match res {
                Some(key) => key@ == der@ && key.public_der() == public@ && der@.len()
                    <= MAX_KEY_LENGTH,
                None => der@.len() > MAX_KEY_LENGTH,
            },
    {
        if der.len() > MAX_KEY_LENGTH {
            return None;
        }
        Some(TorSecretKeyV2 { der, public })
    }

    /// The public key that belongs to this key.
    pub fn public(&self) -> (res: TorPublicKeyV2)
        ensures
            res@ == self.public_der(),
    {
        TorPublicKeyV2 { der: self.public.clone() }
    }

    /// The encoding of the key.
    pub fn as_der(&self) -> (res: &Vec<u8>)
        ensures
            res@ == self@,
    {
        &self.der
    }

    /// The key as it is shown: not at all.
    pub fn to_string(&self) -> (res: String)
        ensures
            res@ == "TorSecretKeyV2(****)"@,
    {
        "TorSecretKeyV2(****)".to_owned()
    }

    /// The key as `ADD_ONION` takes it: the base64 text of its encoding.
    pub fn as_tor_proto_encoded(&self) -> (res: String)
        ensures
            encode_utf8(res@) == base64_text(self@),
            is_base64(encode_utf8(res@)),
            base64_data(encode_utf8(res@)) == Some(self@),
    {
        proof {
            use_type_invariant(self);
        }
        base64_encode(self.der.as_slice())
    }
}

} // verus!

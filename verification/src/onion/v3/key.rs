//! The keys of an onion service of version 3.

use crate::onion::v3::onion::{checksum_of, OnionAddressV3};
use crate::utils::codec::{
    base32_encode, base32_text, base64_data, base64_decode, base64_encode, base64_text, is_base64,
};
use crate::utils::crypto::{
    ed25519_check_point, ed25519_generate, ed25519_is_point, ed25519_public, ed25519_public_key,
};
use crate::utils::text::string_from_ascii;
use vstd::prelude::*;
use vstd::string::StringSliceAdditionalSpecFns;
use vstd::utf8::encode_utf8;

verus! {

/// The length of a public key in bytes.
pub const TORV3_PUBLIC_KEY_LENGTH: usize = 32;

/// The length of an expanded secret key in bytes.
pub const TORV3_SECRET_KEY_LENGTH: usize = 64;

/// Bytes that are no point of the curve were offered as a public key.
#[derive(Debug, Clone, Copy, PartialEq, Eq, Structural)]
pub struct InvalidPublicKey;

/// The public key of an onion service: 32 bytes.
#[derive(Debug, Copy, Clone, PartialEq, Eq, PartialOrd, Ord)]
pub struct TorPublicKeyV3([u8; 32]);

impl View for TorPublicKeyV3 {
    type V = Seq<u8>;

    closed spec fn view(&self) -> Seq<u8> {
        self.0@
    }
}

impl TorPublicKeyV3 {
    /// The key that 32 bytes are, whether they are a point of the curve or
    /// not.
    pub(crate) fn from_raw(bytes: [u8; 32]) -> (res: TorPublicKeyV3)
        ensures
            res@ == bytes@,
    {
        TorPublicKeyV3(bytes)
    }

    /// The bytes of the key.
    pub fn to_bytes(&self) -> (res: [u8; 32])
        ensures
            res@ == self@,
    {
        self.0
    }

    /// The bytes of the key.
    pub fn as_bytes(&self) -> (res: &[u8; 32])
        ensures
            res@ == self@,
    {
        &self.0
    }

    /// Makes a public key from bytes that are a point of the curve, and
    /// refuses any other bytes.
    pub fn from_bytes(bytes: &[u8; 32]) -> (res: Result<TorPublicKeyV3, InvalidPublicKey>)
        ensures
            match res {
                Ok(key) => ed25519_is_point(bytes@) && key@ == bytes@,
                Err(_) => !ed25519_is_point(bytes@),
            },
    {
        if ed25519_check_point(bytes) {
            Ok(TorPublicKeyV3(*bytes))
        } else {
            Err(InvalidPublicKey)
        }
    }

    /// Reads a key from the base64 text of its bytes. A text that is not
    /// the base64 text of 32 bytes that are a point of the curve is
    /// refused.
    pub fn from_base64(text: &str) -> (res: Option<TorPublicKeyV3>)
        ensures
            match res {
                Some(key) => base64_data(text.spec_bytes()) == Some(key@) && ed25519_is_point(
                    key@,
                ),
                None => !(base64_data(text.spec_bytes()) matches Some(data) && data.len() == 32
                    && ed25519_is_point(data)),
            },
    {
        match base64_decode(text.as_bytes()) {
            Some(data) => {
                if data.len() != 32 {
                    return None;
                }
                let mut bytes = [0u8; 32];
                let mut i: usize = 0;
                while i < 32
                    invariant
                        i <= 32,
                        data.len() == 32,
                        forall|j: int| 0 <= j < i ==> bytes@[j] == data@[j],
                    decreases 32 - i,
                {
                    bytes[i] = data[i];
                    i += 1;
                }
                assert(bytes@ =~= data@);
                match TorPublicKeyV3::from_bytes(&bytes) {
                    Ok(key) => Some(key),
                    Err(_) => None,
                }
            },
            None => None,
        }
    }

    /// The base64 text of the bytes of the key.
    pub fn to_base64(&self) -> (res: String)
        ensures
            encode_utf8(res@) == base64_text(self@),
            base64_data(encode_utf8(res@)) == Some(self@),
    {
        base64_encode(self.0.as_slice())
    }

    /// The key as it is shown: `TorPublicKey(` and `)` around the base32
    /// text of its bytes.
    pub fn to_string(&self) -> (res: String)
        ensures
            encode_utf8(res@) == "TorPublicKey(".spec_bytes() + base32_text(self@) + seq![0x29u8],
    {
        let head = "TorPublicKey(";
        proof {
            reveal_strlit("TorPublicKey(");
            vstd::string::is_ascii_spec_bytes(head);
        }
        let body = base32_encode(self.0.as_slice());
        let mut out: Vec<u8> = Vec::new();
        out.extend_from_slice(head.as_bytes());
        out.extend_from_slice(body.as_str().as_bytes());
        out.push(0x29);
        string_from_ascii(out.as_slice())
    }

    /// The address of the service that has this key: the key and its
    /// checksum.
    pub fn get_onion_address(&self) -> (res: OnionAddressV3)
        ensures
            res@.len() == 34,
            res@.take(32) == self@,
            res@.subrange(32, 34) == checksum_of(self@),
    {
        OnionAddressV3::from(self)
    }
}

/// The secret key of an onion service, in its expanded form of 64 bytes.
/// The public key can be had from it.
#[derive(Clone, PartialEq, Eq)]
pub struct TorSecretKeyV3([u8; 64]);

impl View for TorSecretKeyV3 {
    type V = Seq<u8>;

    closed spec fn view(&self) -> Seq<u8> {
        self.0@
    }
}

impl TorSecretKeyV3 {
    /// The key that 64 bytes are.
    pub fn from(bytes: [u8; 64]) -> (res: TorSecretKeyV3)
        ensures
            res@ == bytes@,
    {
        TorSecretKeyV3(bytes)
    }

    /// A fresh key: the expansion of a seed from the random number
    /// generator of the thread. Its scalar is clamped as Ed25519 asks.
    pub fn generate() -> (res: TorSecretKeyV3)
        ensures
            res@.len() == 64,
            res@[0] & 7 == 0,
            res@[31] & 0xc0 == 0x40,
    {
        TorSecretKeyV3(ed25519_generate())
    }

    /// The public key that belongs to this key. It is a point of the curve.
    pub fn public(&self) -> (res: TorPublicKeyV3)
        ensures
            res@ == ed25519_public(self@),
            ed25519_is_point(res@),
    {
        TorPublicKeyV3(ed25519_public_key(&self.0).unwrap())
    }

    /// The bytes of the key.
    pub fn as_bytes(&self) -> (res: [u8; 64])
        ensures
            res@ == self@,
    {
        self.0
    }

    /// The bytes of the key.
    pub fn into_bytes(self) -> (res: [u8; 64])
        ensures
            res@ == self@,
    {
        self.0
    }

    /// The key as it is shown: not at all.
    pub fn to_string(&self) -> (res: String)
        ensures
            res@ == "TorSecretKey(****)"@,
    {
        "TorSecretKey(****)".to_owned()
    }

    /// The key as `ADD_ONION` takes it: the base64 text of its bytes.
    pub fn as_tor_proto_encoded(&self) -> (res: String)
        ensures
            encode_utf8(res@) == base64_text(self@),
            is_base64(encode_utf8(res@)),
            base64_data(encode_utf8(res@)) == Some(self@),
    {
        base64_encode(self.0.as_slice())
    }

    /// Reads a key from the base64 text of its bytes.
    pub fn from_base64(text: &str) -> (res: Option<TorSecretKeyV3>)
        ensures
            match res {
                Some(key) => base64_data(text.spec_bytes()) == Some(key@),
                None => !(base64_data(text.spec_bytes()) matches Some(data) && data.len() == 64),
            },
    {
        match base64_decode(text.as_bytes()) {
            Some(data) => {
                if data.len() != 64 {
                    return None;
                }
                let mut bytes = [0u8; 64];
                let mut i: usize = 0;
                while i < 64
                    invariant
                        i <= 64,
                        data.len() == 64,
                        forall|j: int| 0 <= j < i ==> bytes@[j] == data@[j],
                    decreases 64 - i,
                {
                    bytes[i] = data[i];
                    i += 1;
                }
                Some(TorSecretKeyV3(bytes))
            },
            None => None,
        }
    }
}

} // verus!

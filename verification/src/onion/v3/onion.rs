//! The address of an onion service of version 3.
//!
//! An address is the 32 bytes of the public key and two bytes of checksum.
//! Its text is the base32 encoding, in lower case, of these 34 bytes and
//! the version byte 3.

use crate::onion::v3::key::TorPublicKeyV3;
use crate::utils::codec::{ascii_lower, base32_data, base32_decode, base32_encode, base32_text};
use crate::utils::crypto::{sha3_256, sha3_256_digest};
use crate::utils::text::{is_ascii_bytes, string_from_ascii};
use vstd::prelude::*;
use vstd::string::StringSliceAdditionalSpecFns;
use vstd::utf8::encode_utf8;

verus! {

/// The length of an address in bytes: the key and the checksum.
pub const TORV3_ONION_ADDRESS_LENGTH_BYTES: usize = 34;

/// What is hashed for the checksum of the key `key`.
pub open spec fn checksum_input(key: Seq<u8>) -> Seq<u8> {
    ".onion checksum".spec_bytes() + key + seq![3u8]
}

/// The checksum of the key `key`: the first two bytes of the digest.
pub open spec fn checksum_of(key: Seq<u8>) -> Seq<u8> {
    sha3_256(checksum_input(key)).take(2)
}

/// The address text, without `.onion`, for the 34 bytes of an address.
pub open spec fn address_text(address: Seq<u8>) -> Seq<u8> {
    ascii_lower(base32_text(address + seq![3u8]))
}

/// Why a text is no address.
#[derive(Debug, Clone, Copy, PartialEq, Eq, Structural)]
pub enum OnionAddressParseError {
    InvalidLength,
    Base32Error,
    InvalidChecksum,
    InvalidVersion,
}

/// The 34 bytes of the address that `text` writes: 56 characters of base32
/// that decode to 35 bytes, the last of them 3, with the checksum of the
/// first 32 in the two bytes behind them.
pub open spec fn parse_address(text: Seq<u8>) -> Result<Seq<u8>, OnionAddressParseError> {
    if text.len() != 56 {
        Err(OnionAddressParseError::InvalidLength)
    } else {
        match base32_data(text) {
            None => Err(OnionAddressParseError::Base32Error),
            Some(data) => if data.len() != 35 {
                Err(OnionAddressParseError::InvalidLength)
            } else if data[34] != 3 {
                Err(OnionAddressParseError::InvalidVersion)
            } else if data.subrange(32, 34) != checksum_of(data.take(32)) {
                Err(OnionAddressParseError::InvalidChecksum)
            } else {
                Ok(data.take(34))
            },
        }
    }
}

/// The address of an onion service of version 3. Its checksum is right.
#[derive(Debug, Clone, Copy, PartialEq, Eq)]
pub struct OnionAddressV3([u8; 34]);

impl View for OnionAddressV3 {
    type V = Seq<u8>;

    closed spec fn view(&self) -> Seq<u8> {
        self.0@
    }
}

/// Computes the checksum of a key.
fn checksum(key: &[u8]) -> (res: [u8; 2])
    ensures
        res@ == checksum_of(key@),
{
    let mut input: Vec<u8> = Vec::new();
    input.extend_from_slice(".onion checksum".as_bytes());
    input.extend_from_slice(key);
    input.push(3);
    assert(input@ =~= checksum_input(key@));
    let digest = sha3_256_digest(input.as_slice());
    let res = [digest[0], digest[1]];
    res
}

/// Turns upper case letters to lower case.
pub fn to_ascii_lowercase(text: &[u8]) -> (res: Vec<u8>)
    ensures
        res@ == ascii_lower(text@),
{
    let mut out: Vec<u8> = Vec::new();
    let mut i: usize = 0;
    while i < text.len()
        invariant
            i <= text.len(),
            out@.len() == i,
            forall|j: int| 0 <= j < i ==> out@[j] == ascii_lower(text@)[j],
        decreases text.len() - i,
    {
        let b = text[i];
        if 0x41 <= b && b <= 0x5a {
            out.push(b + 0x20);
        } else {
            out.push(b);
        }
        i += 1;
    }
    out
}

impl OnionAddressV3 {
    /// The checksum is the one of the key.
    #[verifier::type_invariant]
    spec fn checksum_is_right(self) -> bool {
        self.0@.subrange(32, 34) == checksum_of(self.0@.take(32))
    }

    /// The address of the service with the public key `key`.
    pub fn from(key: &TorPublicKeyV3) -> (res: OnionAddressV3)
        ensures
            res@.len() == 34,
            res@.take(32) == key@,
            res@.subrange(32, 34) == checksum_of(key@),
    {
        let bytes = key.as_bytes();
        let sum = checksum(bytes.as_slice());
        let mut buf = [0u8; 34];
        let mut i: usize = 0;
        while i < 32
            invariant
                i <= 32,
                bytes@ == key@,
                forall|j: int| 0 <= j < i ==> buf@[j] == key@[j],
            decreases 32 - i,
        {
            buf[i] = bytes[i];
            i += 1;
        }
        buf[32] = sum[0];
        buf[33] = sum[1];
        assert(buf@.take(32) =~= key@);
        assert(buf@.subrange(32, 34) =~= sum@);
        OnionAddressV3(buf)
    }

    /// The 35 bytes that the address text encodes: the address and the
    /// version byte.
    pub fn get_raw_bytes(&self) -> (res: [u8; 35])
        ensures
            res@ == self@ + seq![3u8],
    {
        let mut buf = [0u8; 35];
        let mut i: usize = 0;
        while i < 34
            invariant
                i <= 34,
                forall|j: int| 0 <= j < i ==> buf@[j] == self.0@[j],
                buf@[34] == 0,
            decreases 34 - i,
        {
            buf[i] = self.0[i];
            i += 1;
        }
        buf[34] = 3;
        buf
    }

    /// The public key in the address: its first 32 bytes, as they are.
    /// Whether they are a point of the curve is not looked at here;
    /// [`TorPublicKeyV3::from_bytes`] tells.
    pub fn get_public_key(&self) -> (res: TorPublicKeyV3)
        ensures
            res@ == self@.take(32),
    {
        let mut buf = [0u8; 32];
        let mut i: usize = 0;
        while i < 32
            invariant
                i <= 32,
                forall|j: int| 0 <= j < i ==> buf@[j] == self.0@[j],
            decreases 32 - i,
        {
            buf[i] = self.0[i];
            i += 1;
        }
        TorPublicKeyV3::from_raw(buf)
    }

    /// The text of the address without `.onion`: 56 characters that
    /// [`OnionAddressV3::from_str`] reads back as this address.
    pub fn get_address_without_dot_onion(&self) -> (res: String)
        ensures
            encode_utf8(res@) == address_text(self@),
            encode_utf8(res@).len() == 56,
            is_ascii_bytes(encode_utf8(res@)),
            parse_address(encode_utf8(res@)) == Ok::<Seq<u8>, OnionAddressParseError>(self@),
    {
        proof {
            use_type_invariant(self);
        }
        let raw = self.get_raw_bytes();
        let upper = base32_encode(raw.as_slice());
        let lower = to_ascii_lowercase(upper.as_str().as_bytes());
        assert(raw@.take(32) =~= self@.take(32));
        assert(raw@.subrange(32, 34) =~= self@.subrange(32, 34));
        assert(raw@.take(34) =~= self@);
        string_from_ascii(lower.as_slice())
    }

    /// The address as it is shown.
    pub open spec fn shown(&self) -> Seq<char> {
        vstd::utf8::decode_utf8(address_text(self@) + ".onion".spec_bytes())
    }

    /// The address as it is shown: the text of the address and `.onion`.
    pub fn to_string(&self) -> (res: String)
        ensures
            encode_utf8(res@) == address_text(self@) + ".onion".spec_bytes(),
            res@ == self.shown(),
    {
        broadcast use vstd::utf8::encode_utf8_decode_utf8;

        let body = self.get_address_without_dot_onion();
        let mut out: Vec<u8> = Vec::new();
        out.extend_from_slice(body.as_str().as_bytes());
        let tail = ".onion";
        proof {
            reveal_strlit(".onion");
            vstd::string::is_ascii_spec_bytes(tail);
        }
        out.extend_from_slice(tail.as_bytes());
        string_from_ascii(out.as_slice())
    }

    /// Reads an address from its text without `.onion`.
    ///
    /// The text is refused when it has not 56 bytes, is no base32, does
    /// not decode to 35 bytes, has another version byte than 3 or another
    /// checksum than the one of its key.
    pub fn from_str(raw_onion_address: &str) -> (res: Result<
        OnionAddressV3,
        OnionAddressParseError,
    >)
        ensures
            match res {
                Ok(address) => parse_address(raw_onion_address.spec_bytes()) == Ok::<
                    Seq<u8>,
                    OnionAddressParseError,
                >(address@),
                Err(e) => parse_address(raw_onion_address.spec_bytes()) == Err::<
                    Seq<u8>,
                    OnionAddressParseError,
                >(e),
            },
    {
        if raw_onion_address.as_bytes().len() != 56 {
            return Err(OnionAddressParseError::InvalidLength);
        }
        let data = match base32_decode(raw_onion_address) {
            None => {
                return Err(OnionAddressParseError::Base32Error);
            },
            Some(data) => data,
        };
        if data.len() != 35 {
            return Err(OnionAddressParseError::InvalidLength);
        }
        if data[34] != 3 {
            return Err(OnionAddressParseError::InvalidVersion);
        }
        let key = vstd::slice::slice_subrange(data.as_slice(), 0, 32);
        let sum = checksum(key);
        if sum[0] != data[32] || sum[1] != data[33] {
            return Err(OnionAddressParseError::InvalidChecksum);
        }
        let mut buf = [0u8; 34];
        let mut i: usize = 0;
        while i < 34
            invariant
                i <= 34,
                data.len() == 35,
                forall|j: int| 0 <= j < i ==> buf@[j] == data@[j],
            decreases 34 - i,
        {
            buf[i] = data[i];
            i += 1;
        }
        assert(buf@ =~= data@.take(34));
        assert(buf@.take(32) =~= data@.take(32));
        assert(buf@.subrange(32, 34) =~= sum@);
        assert(data@.subrange(32, 34) =~= sum@);
        Ok(OnionAddressV3(buf))
    }
}

/// A text that decodes to an address with a byte changed behind the key is
/// refused: for another version when the version byte is changed, and for
/// its checksum when a byte of the checksum is.
///
/// Of a change in the key nothing of the kind can be said here: the
/// checksum of the changed key is whatever SHA3-256 makes it.
pub proof fn lemma_altered_address_is_refused(address: Seq<u8>, text: Seq<u8>, data: Seq<u8>)
    requires
        address.len() == 34,
        address.subrange(32, 34) == checksum_of(address.take(32)),
        text.len() == 56,
        base32_data(text) == Some(data),
        data.len() == 35,
        data.take(32) == address.take(32),
        data != address + seq![3u8],
    ensures
        parse_address(text) == Err::<Seq<u8>, OnionAddressParseError>(
            if data[34] != 3 {
                OnionAddressParseError::InvalidVersion
            } else {
                OnionAddressParseError::InvalidChecksum
            },
        ),
{
    if data[34] == 3 && data.subrange(32, 34) == address.subrange(32, 34) {
        assert(data =~= address + seq![3u8]) by {
            assert forall|i: int| 0 <= i < 35 implies data[i] == (address + seq![3u8])[i] by {
                if i < 32 {
                    assert(address.take(32)[i] == address[i]);
                } else if i < 34 {
                    assert(address.subrange(32, 34)[i - 32] == address[i]);
                }
            }
        }
    }
}

} // verus!

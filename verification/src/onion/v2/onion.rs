//! The address of an onion service of version 2: ten bytes, without a
//! checksum. Its text is their base32 encoding in lower case.

use crate::onion::v3::onion::to_ascii_lowercase;
use crate::utils::codec::{ascii_lower, base32_data, base32_decode, base32_encode, base32_text};
use crate::utils::text::{is_ascii_bytes, string_from_ascii};
use vstd::prelude::*;
use vstd::string::StringSliceAdditionalSpecFns;
use vstd::utf8::encode_utf8;

verus! {

/// The length of an address in bytes.
pub const TORV2_ONION_ADDRESS_LENGTH_BYTES: usize = 10;

/// Why a text is no address.
#[derive(Debug, Clone, Copy, PartialEq, Eq, Structural)]
pub enum OnionAddressV2ParseError {
    InvalidLength,
    Base32Error,
    InvalidChecksum,
    InvalidVersion,
}

/// The ten bytes of the address that `text` writes: 16 characters of
/// base32 that decode to ten bytes.
pub open spec fn parse_address_v2(text: Seq<u8>) -> Result<Seq<u8>, OnionAddressV2ParseError> {
    if text.len() != 16 {
        Err(OnionAddressV2ParseError::InvalidLength)
    } else {
        match base32_data(text) {
            None => Err(OnionAddressV2ParseError::Base32Error),
            Some(data) => if data.len() != 10 {
                Err(OnionAddressV2ParseError::InvalidLength)
            } else {
                Ok(data)
            },
        }
    }
}

/// The address of an onion service of version 2.
#[derive(Debug, Clone, Copy, PartialEq, Eq)]
pub struct OnionAddressV2([u8; 10]);

impl View for OnionAddressV2 {
    type V = Seq<u8>;

    closed spec fn view(&self) -> Seq<u8> {
        self.0@
    }
}

impl OnionAddressV2 {
    /// The text of the address without `.onion`: 16 characters that
    /// [`OnionAddressV2::from_str`] reads back as this address.
    pub fn get_address_without_dot_onion(&self) -> (res: String)
        ensures
            encode_utf8(res@) == ascii_lower(base32_text(self@)),
            is_ascii_bytes(encode_utf8(res@)),
            parse_address_v2(encode_utf8(res@)) == Ok::<Seq<u8>, OnionAddressV2ParseError>(self@),
    {
        let upper = base32_encode(self.0.as_slice());
        let lower = to_ascii_lowercase(upper.as_str().as_bytes());
        string_from_ascii(lower.as_slice())
    }

    /// The bytes of the address.
    pub fn get_raw_bytes(&self) -> (res: [u8; 10])
        ensures
            res@ == self@,
    {
        self.0
    }

    /// The address as it is shown: the text of the address and `.onion`.
    pub fn to_string(&self) -> (res: String)
        ensures
            encode_utf8(res@) == ascii_lower(base32_text(self@)) + ".onion".spec_bytes(),
    {
        let body = self.get_address_without_dot_onion();
        let mut out: Vec<u8> = Vec::new();
        out.extend_from_slice(body.as_str().as_bytes());
        let tail = ".onion";
        proof {
            reveal_strlit(".onion");
            vstd::string::is_ascii_spec_bytes(tail);
        }
        out.extend_from_slice(tail.as_bytes());
        string_from_ascii(out.as_slice())
    }

    /// Reads an address from its text without `.onion`. The text is
    /// refused when it has not 16 bytes, is no base32 or does not decode
    /// to ten bytes.
    pub fn from_str(raw_onion_address: &str) -> (res: Result<
        OnionAddressV2,
        OnionAddressV2ParseError,
    >)
        ensures
            match res {
                Ok(address) => parse_address_v2(raw_onion_address.spec_bytes()) == Ok::<
                    Seq<u8>,
                    OnionAddressV2ParseError,
                >(address@),
                Err(e) => parse_address_v2(raw_onion_address.spec_bytes()) == Err::<
                    Seq<u8>,
                    OnionAddressV2ParseError,
                >(e),
            },
    {
        if raw_onion_address.as_bytes().len() != 16 {
            return Err(OnionAddressV2ParseError::InvalidLength);
        }
        let data = match base32_decode(raw_onion_address) {
            Some(data) => data,
            None => {
                return Err(OnionAddressV2ParseError::Base32Error);
            },
        };
        if data.len() != 10 {
            return Err(OnionAddressV2ParseError::InvalidLength);
        }
        let mut buf = [0u8; 10];
        let mut i: usize = 0;
        while i < 10
            invariant
                i <= 10,
                data.len() == 10,
                forall|j: int| 0 <= j < i ==> buf@[j] == data@[j],
            decreases 10 - i,
        {
            buf[i] = data[i];
            i += 1;
        }
        assert(buf@ =~= data@);
        Ok(OnionAddressV2(buf))
    }
}

} // verus!

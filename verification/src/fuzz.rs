//! Entry points for fuzzing.
//!
//! Each takes arbitrary bytes and runs a reader of the library on them.
//! What a harness would check while it runs is proved here: the offset
//! that the decoder gives is the place of a quote, and the status of a
//! reply is below 1000.

use crate::control::conn::conn::Conn;
use crate::control::conn::unauthenticated_conn::UnauthenticatedConn;
use crate::onion::v2::onion::OnionAddressV2;
use crate::onion::v3::onion::OnionAddressV3;
use crate::utils::codec::{base32_decode, base64_decode};
use crate::utils::key_value::parse_single_key_value;
use crate::utils::quoted::unquote_string;
use crate::utils::text::str_from_utf8;
use crate::utils::QUOTE;
use vstd::prelude::*;
use vstd::slice::slice_subrange;

verus! {

/// Runs the decoder of quoted strings on `data`, if it is text.
pub fn fuzz_unquote_string(data: &[u8]) {
    if let Some(text) = str_from_utf8(data) {
        let (offset, _res) = unquote_string(text);
        if let Some(offset) = offset {
            assert(data@[offset as int] == QUOTE);
        }
    }
}

/// Runs the reader of `KEY=VALUE` on `data` without its first byte, if
/// that is text.
pub fn fuzz_parse_single_key_value(data: &[u8]) {
    if data.len() < 1 {
        return ;
    }
    let data = slice_subrange(data, 1, data.len());
    if let Some(text) = str_from_utf8(data) {
        let _ = parse_single_key_value(text);
    }
}

/// Reads a reply from `data`.
pub fn fuzz_conn_parse_response(data: &[u8]) {
    let mut conn = Conn::new();
    conn.push_input(data);
    if let Ok((code, _lines)) = conn.receive_data() {
        assert(code <= 999);
    }
}

/// Reads a reply to `PROTOCOLINFO` from `data`.
pub fn fuzz_unauthenticated_conn_parse_protocol_info(data: &[u8]) {
    let mut conn = Conn::new();
    conn.push_input(data);
    let mut conn = UnauthenticatedConn::new(conn);
    let _ = conn.read_protocol_info();
}

/// Reads an address of version 2 from `data`, if it is text.
pub fn fuzz_deserialize_onion_address_v2_from_text(data: &[u8]) {
    if let Some(text) = str_from_utf8(data) {
        let _ = OnionAddressV2::from_str(text);
    }
}

/// Reads an address of version 3 from `data`, if it is text.
pub fn fuzz_deserialize_onion_address_v3_from_text(data: &[u8]) {
    if let Some(text) = str_from_utf8(data) {
        let _ = OnionAddressV3::from_str(text);
    }
}

/// Decodes `data` as base32, if it is text and not longer than the decoder
/// takes.
pub fn fuzz_base32_decode(data: &[u8]) {
    if data.len() <= 0x1000_0000 {
        if let Some(text) = str_from_utf8(data) {
            let _ = base32_decode(text);
        }
    }
}

/// Decodes `data` as base64.
pub fn fuzz_base64_decode(data: &[u8]) {
    let _ = base64_decode(data);
}

} // verus!

use torut::control::primitives::error::TorErrorKind;
use torut::control::primitives::event::AsyncEventKind;
use torut::control::primitives::signal::TorSignal;
use torut::fuzz::{
    fuzz_base32_decode, fuzz_base64_decode, fuzz_conn_parse_response,
    fuzz_deserialize_onion_address_v2_from_text, fuzz_deserialize_onion_address_v3_from_text,
    fuzz_parse_single_key_value, fuzz_unauthenticated_conn_parse_protocol_info,
    fuzz_unquote_string,
};
use torut::onion::builder::{OnionServiceBuilder, OnionServiceFlag, OnionServiceFlags};
use torut::onion::common::{OnionAddress, TorSecretKey};
use torut::onion::v3::key::TorSecretKeyV3;
use torut::onion::v3::onion::OnionAddressV3;
use torut::utils::{
    is_valid_event, is_valid_hostname, is_valid_keyword, is_valid_option, is_valid_service_id,
};

#[test]
fn error_kinds_and_their_statuses() {
    assert_eq!(TorErrorKind::ResourceExhausted.into(), 451);
    assert_eq!(TorErrorKind::UnmanagedEntity.into(), 555);
    assert_eq!(TorErrorKind::try_from(515), Ok(TorErrorKind::BadAuth));
    assert_eq!(TorErrorKind::try_from(250), Err(()));
    for code in 0..1000u16 {
        if let Ok(kind) = TorErrorKind::try_from(code) {
            assert_eq!(kind.into(), code as u32);
        }
    }
}

#[test]
fn event_kinds_and_signals_by_name() {
    assert_eq!(AsyncEventKind::CircuitStatusChanged.get_identifier(), "CIRC");
    assert_eq!(AsyncEventKind::from_str("ADDRMAP"), Ok(AsyncEventKind::NewAddressMapping));
    assert_eq!(AsyncEventKind::from_str("PT_STATUS"), Ok(AsyncEventKind::PluggableTransportStatus));
    assert_eq!(AsyncEventKind::from_str("circ"), Err(()));
    assert_eq!(AsyncEventKind::from_str(""), Err(()));
    assert_eq!(TorSignal::NewNym.as_str(), "NEWNYM");
    assert_eq!(TorSignal::from_str("CLEARDNSCACHE"), Ok(TorSignal::ClearDNSCache));
    assert_eq!(TorSignal::from_str("DORMANT"), Ok(TorSignal::Dormant));
    assert_eq!(TorSignal::from_str("NEWNYM "), Err(()));
}

#[test]
fn validators() {
    assert!(is_valid_keyword("SOCKS_PORT"));
    assert!(!is_valid_keyword(""));
    assert!(!is_valid_keyword("SocksPort"));
    assert!(!is_valid_keyword("SOCKS1"));
    assert!(is_valid_event("HS_DESC"));
    assert!(!is_valid_event("hs_desc"));
    assert!(is_valid_option("net/listeners/socks"));
    assert!(is_valid_option("ip-to-country/8.8.8.8") == false);
    assert!(!is_valid_option(""));
    assert!(is_valid_hostname("sub-1.example_x.org"));
    assert!(!is_valid_hostname("a/b"));
    assert!(is_valid_service_id(""));
    assert!(is_valid_service_id("Ab9/="));
    assert!(!is_valid_service_id("a-b"));
}

#[test]
fn fuzz_entry_points_take_anything() {
    for data in [
        &b""[..],
        b"\"abc\\\"",
        b"\xff\xfe",
        b"x=y",
        b"250 OK\r\n",
        b"250-PROTOCOLINFO 1\r\n250 OK\r\n",
        b"p53lf57qovyuvwsc6xnrppyply3vtqm7l6pcobkmyqsiofyeznfu5uqd",
        b"duskgytldkxiuqc6",
        b"AAAA====",
    ] {
        fuzz_unquote_string(data);
        fuzz_parse_single_key_value(data);
        fuzz_conn_parse_response(data);
        fuzz_unauthenticated_conn_parse_protocol_info(data);
        fuzz_deserialize_onion_address_v2_from_text(data);
        fuzz_deserialize_onion_address_v3_from_text(data);
        fuzz_base32_decode(data);
        fuzz_base64_decode(data);
    }
}

#[test]
fn builder_keeps_what_it_is_given() {
    let mut builder = OnionServiceBuilder::new();
    builder.set_key(TorSecretKey::V3(TorSecretKeyV3::generate()));
    builder.set_max_streams(7);
    builder.set_port_mapping("127.0.0.1".to_string(), 80);
    builder.set_port_mapping("127.0.0.2".to_string(), 443);
    builder.set_port_mapping("127.0.0.3".to_string(), 80);
    let mut flags = OnionServiceFlags::new();
    flags.insert(OnionServiceFlag::Detach);
    assert!(flags.contains(OnionServiceFlag::Detach));
    assert!(!flags.contains(OnionServiceFlag::DiscardPK));
    builder.set_flags(flags);
    assert_eq!(OnionServiceFlag::MaxStreamsCloseCircuit.as_str(), "MaxStreamsCloseCircuit");
    assert_eq!(OnionServiceFlag::DiscardPK.as_str(), "DiscardPK");
}

#[test]
fn address_of_any_version() {
    let text = "p53lf57qovyuvwsc6xnrppyply3vtqm7l6pcobkmyqsiofyeznfu5uqd";
    let address = OnionAddress::V3(OnionAddressV3::from_str(text).unwrap());
    assert_eq!(address.get_address_without_dot_onion(), text);
    assert_eq!(address.to_string(), format!("{}.onion", text));
}

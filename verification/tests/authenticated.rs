use torut::control::conn::authenticated_conn::AuthenticatedConn;
use torut::control::conn::commands::{
    add_onion_v3_request, del_onion_request, get_conf_request, get_info_request,
    resolve_request, reverse_resolve_request, set_conf_request, set_events_request,
};
use torut::control::conn::conn::{AuthenticatedConnError, Conn, ConnError};
use torut::control::conn::responses::{
    parse_get_conf_response, parse_get_info_response, KeyedValues,
};
use torut::control::conn::unauthenticated_conn::UnauthenticatedConn;
use torut::control::primitives::auth::{TorAuthData, TorAuthMethod};
use torut::onion::v2::key::TorSecretKeyV2;
use torut::onion::v3::key::TorSecretKeyV3;

fn conn_with(input: &[u8]) -> AuthenticatedConn {
    let mut conn = Conn::new();
    conn.push_input(input);
    AuthenticatedConn::from(conn)
}

fn lines_of(input: &[u8]) -> (u16, Vec<String>) {
    let mut conn = Conn::new();
    conn.push_input(input);
    conn.receive_data().unwrap()
}

fn arg_error(e: AuthenticatedConnError) -> ConnError {
    ConnError::AuthenticatedConnError(e)
}

fn entries<V: Clone + torut::control::conn::responses::Value>(
    map: &KeyedValues<V>,
) -> Vec<(String, Vec<V>)> {
    (0..map.len()).map(|i| (map.key(i).clone(), map.values(i).clone())).collect()
}

#[test]
fn test_can_parse_getconf_response() {
    for (i, o) in [
        (
            b"250 SOCKSPORT=1234\r\n" as &[u8],
            Some(vec![("SOCKSPORT".to_string(), vec![Some("1234".to_string())])]),
        ),
        (b"250 SOCKSPORT\r\n", Some(vec![("SOCKSPORT".to_string(), vec![None])])),
        (
            b"250-SOCKSPORT=1234\r\n250 SOCKSPORT=5678\r\n",
            Some(vec![(
                "SOCKSPORT".to_string(),
                vec![Some("1234".to_string()), Some("5678".to_string())],
            )]),
        ),
        (
            b"250-SOCKSPORT=5678\r\n250 SOCKSPORT=1234\r\n",
            Some(vec![(
                "SOCKSPORT".to_string(),
                vec![Some("5678".to_string()), Some("1234".to_string())],
            )]),
        ),
    ]
    .iter()
    .cloned()
    {
        let (code, lines) = lines_of(i);
        if let Some(o) = o {
            let res = parse_get_conf_response(code, &lines).unwrap();
            assert_eq!(entries(&res), o);
        } else {
            parse_get_conf_response(code, &lines).unwrap_err();
        }
    }
}

#[test]
fn test_can_parse_getinfo_response() {
    for (i, o) in [
        (
            b"250-version=1.2.3.4\r\n250 OK\r\n" as &[u8],
            Some(vec![("version".to_string(), vec!["1.2.3.4".to_string()])]),
        ),
        (
            // no terminating `250 OK` line
            b"250 version=1.2.3.4\r\n" as &[u8],
            None,
        ),
        (
            // multiple responses for same key
            b"250-version=1.2.3.4\r\n250-version=4.3.2.1\r\n250 OK\r\n" as &[u8],
            Some(vec![(
                "version".to_string(),
                vec!["1.2.3.4".to_string(), "4.3.2.1".to_string()],
            )]),
        ),
        (
            // multiple responses for multiple keys
            b"250-aversion=1.2.3.4\r\n250-reversion=4.3.2.1\r\n250 OK\r\n" as &[u8],
            Some(vec![
                ("aversion".to_string(), vec!["1.2.3.4".to_string()]),
                ("reversion".to_string(), vec!["4.3.2.1".to_string()]),
            ]),
        ),
    ]
    .iter()
    .cloned()
    {
        let (code, lines) = lines_of(i);
        if let Some(o) = o {
            let res = parse_get_info_response(code, &lines).unwrap();
            assert_eq!(entries(&res), o);
            for (k, v) in o {
                assert_eq!(res.get(&k), Some(&v));
            }
            assert_eq!(res.get("missing"), None);
        } else {
            assert_eq!(
                parse_get_info_response(code, &lines).unwrap_err(),
                ConnError::InvalidFormat
            );
        }
    }
}

#[test]
fn null_auth_then_getinfo() {
    let mut conn = Conn::new();
    conn.push_input(
        b"250-PROTOCOLINFO 1\r\n250-AUTH METHODS=NULL\r\n250-VERSION Tor=\"0.4.2.5\"\r\n250 OK\r\n",
    );
    conn.push_input(b"250 OK\r\n");
    conn.push_input(b"250-version=0.4.2.5\r\n250 OK\r\n");
    let mut utc = UnauthenticatedConn::new(conn);
    utc.load_protocol_info().unwrap();
    assert!(utc
        .get_protocol_info()
        .unwrap()
        .auth_methods
        .contains(&TorAuthMethod::Null));
    utc.authenticate(&TorAuthData::Null).unwrap();
    let mut ac = utc.into_authenticated();
    assert_eq!(ac.get_info("version").unwrap(), "0.4.2.5");
    assert_eq!(
        String::from_utf8(ac.take_output()).unwrap(),
        "PROTOCOLINFO 1\r\nAUTHENTICATE\r\nGETINFO version\r\n"
    );
    assert!(ac.take_events().is_empty());
}

#[test]
fn add_onion_v3_with_one_port() {
    let key = TorSecretKeyV3::generate();
    let b = key.as_tor_proto_encoded();
    let mut ac = conn_with(b"250 OK\r\n");
    ac.add_onion_v3(
        &key,
        false,
        false,
        false,
        None,
        &[(15787, "127.0.0.1:15787".to_string())],
    )
    .unwrap();
    assert_eq!(
        String::from_utf8(ac.take_output()).unwrap(),
        format!("ADD_ONION ED25519-V3:{} Flags=DiscardPK Port=15787,127.0.0.1:15787\r\n", b)
    );
}

#[test]
fn add_onion_v3_with_everything() {
    let key = TorSecretKeyV3::from([9u8; 64]);
    let b = base64::encode(&[9u8; 64][..]);
    let request = add_onion_v3_request(
        &key,
        true,
        true,
        true,
        Some(0),
        &[(80, "127.0.0.1:8080".to_string()), (65535, "[::1]:443".to_string())],
    )
    .unwrap();
    assert_eq!(
        String::from_utf8(request).unwrap(),
        format!(
            "ADD_ONION ED25519-V3:{} Flags=DiscardPK,Detach,NonAnonymous,MaxStreamsCloseCircuit MaxStreams=0 Port=80,127.0.0.1:8080 Port=65535,[::1]:443\r\n",
            b
        )
    );
    let request =
        add_onion_v3_request(&key, false, true, false, Some(1205), &[(1, "1.2.3.4:5".to_string())])
            .unwrap();
    assert_eq!(
        String::from_utf8(request).unwrap(),
        format!(
            "ADD_ONION ED25519-V3:{} Flags=DiscardPK,NonAnonymous MaxStreams=1205 Port=1,1.2.3.4:5\r\n",
            b
        )
    );
}

#[test]
fn duplicate_port_is_refused_before_any_write() {
    let key = TorSecretKeyV3::generate();
    let mut ac = conn_with(b"250 OK\r\n");
    for listeners in [
        vec![(80, "127.0.0.1:1".to_string()), (80, "127.0.0.1:2".to_string())],
        vec![],
        vec![(80, "127.0.0.1:1 Flags=x".to_string())],
        vec![(80, "127.0.0.1:1\r\nSIGNAL HALT".to_string())],
        vec![(80, String::new())],
    ] {
        assert_eq!(
            ac.add_onion_v3(&key, false, false, false, None, &listeners).unwrap_err(),
            arg_error(AuthenticatedConnError::InvalidListenerSpecification)
        );
        assert_eq!(ac.take_output(), b"");
    }
    // the reply is still there for the next command
    ac.take_ownership().unwrap();
}

#[test]
fn event_during_command() {
    let mut ac = conn_with(b"650 CIRC 1 LAUNCHED\r\n250-version=0.4.2.5\r\n250 OK\r\n");
    assert_eq!(ac.get_info("version").unwrap(), "0.4.2.5");
    let events = ac.take_events();
    assert_eq!(events.len(), 1);
    assert_eq!(events[0].code, 650);
    assert_eq!(events[0].lines, vec!["CIRC 1 LAUNCHED"]);
    assert!(ac.take_events().is_empty());
}

#[test]
fn events_keep_their_order_and_noop_lets_them_in() {
    let mut ac = conn_with(
        b"650 A\r\n650-B\r\n650 C\r\n250-version=1\r\n250 OK\r\n650 D\r\n250 OK\r\n650 E\r\n",
    );
    ac.noop().unwrap();
    assert_eq!(ac.take_output(), b"GETINFO version\r\n");
    ac.drop_guards().unwrap();
    let events = ac.take_events();
    let lines: Vec<Vec<String>> = events.into_iter().map(|e| e.lines).collect();
    assert_eq!(
        lines,
        vec![
            vec!["A".to_string()],
            vec!["B".to_string(), "C".to_string()],
            vec!["D".to_string()]
        ]
    );
    // the input ends behind an event: the event is kept, the command fails
    assert_eq!(ac.drop_ownership().unwrap_err(), ConnError::IOError);
    assert_eq!(ac.take_events().len(), 1);
    assert_eq!(ac.take_output(), b"DROPGUARDS\r\nDROPOWNERSHIP\r\n");
}

#[test]
fn simple_commands() {
    let mut ac = conn_with(b"250 OK\r\n250 OK\r\n250 OK\r\n510 Unrecognized command\r\n");
    ac.take_ownership().unwrap();
    assert_eq!(ac.take_output(), b"TAKEOWNERSHIP\r\n");
    ac.drop_ownership().unwrap();
    assert_eq!(ac.take_output(), b"DROPOWNERSHIP\r\n");
    ac.drop_guards().unwrap();
    assert_eq!(ac.take_output(), b"DROPGUARDS\r\n");
    assert_eq!(ac.take_ownership().unwrap_err(), ConnError::InvalidResponseCode(510));
}

#[test]
fn set_conf_commands() {
    assert_eq!(
        set_conf_request(&[("SOCKSPORT", Some("17539"))]).unwrap().unwrap(),
        b"SETCONF SOCKSPORT=\"17539\"\r\n"
    );
    assert_eq!(
        set_conf_request(&[("A", Some("x y")), ("B_C", None), ("D", Some(""))])
            .unwrap()
            .unwrap(),
        b"SETCONF A=\"x\\40y\" B_C D=\"\"\r\n"
    );
    assert_eq!(set_conf_request(&[]).unwrap(), None);
    for bad in ["", "SocksPort", "A B", "A=1", "A\r\nSIGNAL HALT"] {
        assert_eq!(
            set_conf_request(&[("GOOD", None), (bad, None)]).unwrap_err(),
            arg_error(AuthenticatedConnError::InvalidKeywordValue)
        );
    }
    let mut ac = conn_with(b"250 OK\r\n552 Unrecognized option\r\n");
    ac.set_conf_multiple(&[]).unwrap();
    assert_eq!(ac.take_output(), b"");
    assert_eq!(
        ac.set_conf("bad", None).unwrap_err(),
        arg_error(AuthenticatedConnError::InvalidKeywordValue)
    );
    assert_eq!(ac.take_output(), b"");
    ac.set_conf("DISABLENETWORK", Some("1")).unwrap();
    assert_eq!(ac.take_output(), b"SETCONF DISABLENETWORK=\"1\"\r\n");
    assert_eq!(
        ac.set_conf_multiple(&[("X", None)]).unwrap_err(),
        ConnError::InvalidResponseCode(552)
    );
}

#[test]
fn get_conf_command_and_answer() {
    assert_eq!(get_conf_request("SOCKSPORT").unwrap(), b"GETCONF SOCKSPORT\r\n");
    assert_eq!(
        get_conf_request("SocksPort").unwrap_err(),
        arg_error(AuthenticatedConnError::InvalidKeywordValue)
    );
    let mut ac = conn_with(
        b"250-SocksPort=17539\r\n250 SocksPort=\"a b\"\r\n250 DisableNetwork\r\n250 Other=1\r\n250-A=1\r\n250 B=2\r\n250 A=\"x\"y\r\n552 no\r\n",
    );
    assert_eq!(
        ac.get_conf("SOCKSPORT").unwrap(),
        vec![Some("17539".to_string()), Some("a b".to_string())]
    );
    assert_eq!(ac.take_output(), b"GETCONF SOCKSPORT\r\n");
    assert_eq!(ac.get_conf("DISABLENETWORK").unwrap(), vec![None]);
    // another option than the one that was asked for
    assert_eq!(ac.get_conf("SOCKSPORT").unwrap_err(), ConnError::InvalidFormat);
    // two options
    assert_eq!(ac.get_conf("A").unwrap_err(), ConnError::InvalidFormat);
    // a quoted value with something behind it
    assert_eq!(ac.get_conf("A").unwrap_err(), ConnError::InvalidFormat);
    assert_eq!(ac.get_conf("A").unwrap_err(), ConnError::InvalidResponseCode(552));
    assert_eq!(
        ac.get_conf("a").unwrap_err(),
        arg_error(AuthenticatedConnError::InvalidKeywordValue)
    );
}

#[test]
fn get_info_commands_and_answers() {
    assert_eq!(
        get_info_request(&["version", "net/listeners/socks", "version"]).unwrap().unwrap(),
        b"GETINFO version net/listeners/socks version\r\n"
    );
    assert_eq!(get_info_request(&[]).unwrap(), None);
    for bad in ["", "a b", "a=b", "a\r\n"] {
        assert_eq!(
            get_info_request(&["version", bad]).unwrap_err(),
            arg_error(AuthenticatedConnError::InvalidKeywordValue)
        );
    }
    let mut ac = conn_with(
        b"250-version=1\r\n250-net/listeners/socks=\"127.0.0.1:17245\"\r\n250-version=1\r\n250 OK\r\n250-version=1\r\n250 OK\r\n250-version=1\r\n250-other=2\r\n250 OK\r\n250-other=2\r\n250 OK\r\n250-version=1\r\n250-version=1\r\n250 OK\r\n",
    );
    let res = ac.get_info_multiple(&["version", "net/listeners/socks", "version"]).unwrap();
    assert_eq!(res.len(), 2);
    assert_eq!(res.get("version").unwrap(), &vec!["1".to_string(), "1".to_string()]);
    // values are not unquoted
    assert_eq!(
        res.get("net/listeners/socks").unwrap(),
        &vec!["\"127.0.0.1:17245\"".to_string()]
    );
    // a key is missing as often as it was asked for
    assert_eq!(
        ac.get_info_multiple(&["version", "version"]).unwrap_err(),
        ConnError::InvalidFormat
    );
    // a key that was not asked for
    assert_eq!(ac.get_info_multiple(&["version"]).unwrap_err(), ConnError::InvalidFormat);
    // another key than the one that was asked for
    assert_eq!(ac.get_info("version").unwrap_err(), ConnError::InvalidFormat);
    // two values for one key
    assert_eq!(ac.get_info("version").unwrap_err(), ConnError::InvalidFormat);
    assert_eq!(ac.take_output().len() > 0, true);
    assert_eq!(ac.get_info_multiple(&[]).unwrap().len(), 0);
    assert_eq!(ac.take_output(), b"");
    assert_eq!(
        ac.get_info("a b").unwrap_err(),
        arg_error(AuthenticatedConnError::InvalidKeywordValue)
    );
    assert_eq!(ac.take_output(), b"");
}

#[test]
fn set_events_commands() {
    assert_eq!(
        set_events_request(false, &["CIRC", "ADDRMAP"]).unwrap(),
        b"SETEVENTS CIRC ADDRMAP\r\n"
    );
    assert_eq!(
        set_events_request(true, &["STATUS_GENERAL"]).unwrap(),
        b"SETEVENTS EXTENDED STATUS_GENERAL\r\n"
    );
    assert_eq!(set_events_request(false, &[]).unwrap(), b"SETEVENTS\r\n");
    assert_eq!(set_events_request(true, &[]).unwrap(), b"SETEVENTS EXTENDED\r\n");
    for bad in ["", "circ", "CIRC STREAM", "CIRC\r\n"] {
        assert_eq!(
            set_events_request(false, &[bad]).unwrap_err(),
            arg_error(AuthenticatedConnError::InvalidEventName)
        );
    }
    let mut ac = conn_with(b"250 OK\r\n");
    assert_eq!(
        ac.set_events(false, &["CIRC", "x"]).unwrap_err(),
        arg_error(AuthenticatedConnError::InvalidEventName)
    );
    assert_eq!(ac.take_output(), b"");
    ac.set_events(false, &["CIRC"]).unwrap();
    assert_eq!(ac.take_output(), b"SETEVENTS CIRC\r\n");
}

#[test]
fn resolve_commands() {
    assert_eq!(
        resolve_request("www.torproject.org").unwrap(),
        b"RESOLVE www.torproject.org\r\n"
    );
    for bad in ["", "a b", "mode=reverse", "a\r\nSIGNAL HALT", "b\u{fc}cher.example"] {
        assert_eq!(
            resolve_request(bad).unwrap_err(),
            arg_error(AuthenticatedConnError::InvalidHostnameValue)
        );
    }
    assert_eq!(
        reverse_resolve_request([127, 0, 0, 1]),
        b"RESOLVE mode=reverse 127.0.0.1\r\n"
    );
    assert_eq!(
        reverse_resolve_request([255, 10, 9, 100]),
        b"RESOLVE mode=reverse 255.10.9.100\r\n"
    );
    let mut ac = conn_with(b"250 OK\r\n250 OK\r\n");
    ac.resolve("example.com").unwrap();
    ac.reverse_resolve([8, 8, 4, 4]).unwrap();
    assert_eq!(
        ac.take_output(),
        b"RESOLVE example.com\r\nRESOLVE mode=reverse 8.8.4.4\r\n"
    );
    assert_eq!(
        ac.resolve("not a name").unwrap_err(),
        arg_error(AuthenticatedConnError::InvalidHostnameValue)
    );
    assert_eq!(ac.take_output(), b"");
}

#[test]
fn del_onion_commands() {
    assert_eq!(
        del_onion_request("p53lf57qovyuvwsc6xnrppyply3vtqm7l6pcobkmyqsiofyeznfu5uqd").unwrap(),
        b"DEL_ONION p53lf57qovyuvwsc6xnrppyply3vtqm7l6pcobkmyqsiofyeznfu5uqd\r\n"
    );
    assert_eq!(del_onion_request("aZ09/=").unwrap(), b"DEL_ONION aZ09/=\r\n");
    for bad in ["a.onion", "a b", "a\r\n", "a+b"] {
        assert_eq!(
            del_onion_request(bad).unwrap_err(),
            arg_error(AuthenticatedConnError::InvalidOnionServiceIdentifier)
        );
    }
    let mut ac = conn_with(b"250 OK\r\n");
    assert_eq!(
        ac.del_onion("x.onion").unwrap_err(),
        arg_error(AuthenticatedConnError::InvalidOnionServiceIdentifier)
    );
    assert_eq!(ac.take_output(), b"");
    ac.del_onion("abc").unwrap();
    assert_eq!(ac.take_output(), b"DEL_ONION abc\r\n");
}

#[test]
fn add_onion_v2_names_the_kind_of_its_key() {
    let key = TorSecretKeyV2::from_der(vec![1, 2, 3], vec![]).unwrap();
    let mut ac = conn_with(b"250 OK\r\n");
    ac.add_onion_v2(&key, true, false, false, None, &[(80, "127.0.0.1:80".to_string())])
        .unwrap();
    assert_eq!(
        ac.take_output(),
        b"ADD_ONION RSA1024:AQID Flags=DiscardPK,Detach Port=80,127.0.0.1:80\r\n"
    );
    assert_eq!(
        ac.add_onion_v2(&key, true, false, false, None, &[]).unwrap_err(),
        arg_error(AuthenticatedConnError::InvalidListenerSpecification)
    );
}

use hmac::{Hmac, Mac};
use sha2::Sha256;
use torut::control::conn::conn::{Conn, ConnError, UnauthenticatedConnError};
use torut::control::conn::protocol_info::parse_protocol_info;
use torut::control::conn::unauthenticated_conn::{
    check_server_hash, make_auth_challenge_request, make_safe_cookie_request,
    parse_auth_challenge, AuthChallengeResponse, AuthProgress, Authentication,
    ProtocolInfoState, UnauthenticatedConn,
};
use torut::control::primitives::auth::{
    AuthMethodSet, TorAuthData, TorAuthMethod, TorPreAuthInfo,
};

fn conn_with(input: &str) -> UnauthenticatedConn {
    let mut conn = Conn::new();
    conn.push_input(input.as_bytes());
    UnauthenticatedConn::new(conn)
}

fn methods(list: &[TorAuthMethod]) -> AuthMethodSet {
    let mut set = AuthMethodSet::new();
    for m in list {
        set.insert(*m);
    }
    set
}

#[test]
fn test_can_parse_response() {
    for (i, o) in [
        (
            [
                "250-PROTOCOLINFO 1\r\n",
                "250-AUTH METHODS=NULL\r\n",
                "250-VERSION Tor=\"0.4.2.5\"\r\n",
                "250 OK\r\n",
            ]
            .concat(),
            Some(TorPreAuthInfo {
                tor_version: "0.4.2.5".to_string(),
                auth_methods: methods(&[TorAuthMethod::Null]),
                cookie_file: None,
            }),
        ),
        (
            [
                "250-PROTOCOLINFO 1\r\n",
                "250-AUTH METHODS=COOKIE,SAFECOOKIE COOKIEFILE=\"/home/user/.tor/control_auth_cookie\"\r\n",
                "250-VERSION Tor=\"0.4.2.5\"\r\n",
                "250 OK\r\n",
            ]
            .concat(),
            Some(TorPreAuthInfo {
                tor_version: "0.4.2.5".to_string(),
                auth_methods: methods(&[TorAuthMethod::SafeCookie, TorAuthMethod::Cookie]),
                cookie_file: Some("/home/user/.tor/control_auth_cookie".to_string()),
            }),
        ),
        (
            [
                "250-PROTOCOLINFO 1\r\n",
                "250-AUTH METHODS=COOKIE,SAFECOOKIE,HASHEDPASSWORD COOKIEFILE=\"/home/user/.tor/control_auth_cookie\"\r\n",
                "250-VERSION Tor=\"0.4.2.5\"\r\n",
                "250 OK\r\n",
            ]
            .concat(),
            Some(TorPreAuthInfo {
                tor_version: "0.4.2.5".to_string(),
                auth_methods: methods(&[
                    TorAuthMethod::SafeCookie,
                    TorAuthMethod::Cookie,
                    TorAuthMethod::HashedPassword,
                ]),
                cookie_file: Some("/home/user/.tor/control_auth_cookie".to_string()),
            }),
        ),
    ]
    .iter()
    .cloned()
    {
        let mut conn = conn_with(&i);
        match o {
            Some(v) => {
                conn.read_protocol_info().unwrap();
                let pai = conn.get_protocol_info().unwrap();
                assert_eq!(pai, &v);
            }
            None => {
                let _ = conn.read_protocol_info().unwrap_err();
            }
        }
    }
}

fn info_lines(lines: &[&str]) -> Vec<String> {
    lines.iter().map(|l| l.to_string()).collect()
}

#[test]
fn protocol_info_is_refused_when_it_is_wrong() {
    let good = ["PROTOCOLINFO 1", "AUTH METHODS=NULL", "VERSION Tor=\"0.4.2.5\"", "OK"];
    assert!(parse_protocol_info(250, &info_lines(&good)).is_ok());
    assert_eq!(
        parse_protocol_info(515, &info_lines(&good)).unwrap_err(),
        ConnError::InvalidResponseCode(515)
    );
    for bad in [
        &["PROTOCOLINFO 1", "OK"][..],
        &["PROTOCOLINFO 2", "AUTH METHODS=NULL", "VERSION Tor=\"0.4.2.5\"", "OK"],
        &["PROTOCOLINFO 1", "AUTH METHODS=NULL", "VERSION Tor=\"0.4.2.5\"", "DONE"],
        &["PROTOCOLINFO 1", "AUTH METHODS=NULL", "AUTH METHODS=NULL", "VERSION Tor=\"1\"", "OK"],
        &["PROTOCOLINFO 1", "AUTH METHODS", "VERSION Tor=\"0.4.2.5\"", "OK"],
        &["PROTOCOLINFO 1", "AUTH METHODS=", "VERSION Tor=\"0.4.2.5\"", "OK"],
        &["PROTOCOLINFO 1", "AUTH METHODS=NULL,NULL", "VERSION Tor=\"0.4.2.5\"", "OK"],
        &["PROTOCOLINFO 1", "AUTH METHODS=NULL,", "VERSION Tor=\"0.4.2.5\"", "OK"],
        &["PROTOCOLINFO 1", "AUTH METHODS=PASSWORD", "VERSION Tor=\"0.4.2.5\"", "OK"],
        &["PROTOCOLINFO 1", "AUTH METHODS=NULL FILE=\"/a\"", "VERSION Tor=\"0.4.2.5\"", "OK"],
        &["PROTOCOLINFO 1", "AUTH METHODS=NULL COOKIEFILE=/a", "VERSION Tor=\"0.4.2.5\"", "OK"],
        &["PROTOCOLINFO 1", "AUTH METHODS=NULL COOKIEFILE=\"/a\"x", "VERSION Tor=\"1\"", "OK"],
        &["PROTOCOLINFO 1", "AUTH METHODS=NULL", "VERSION Tor=0.4.2.5", "OK"],
        &["PROTOCOLINFO 1", "AUTH METHODS=NULL", "OK"],
        &["PROTOCOLINFO 1", "VERSION Tor=\"0.4.2.5\"", "OK"],
    ] {
        assert_eq!(
            parse_protocol_info(250, &info_lines(bad)).unwrap_err(),
            ConnError::InvalidFormat,
            "{:?}",
            bad
        );
    }
    // the older name of the record, white space around the cookie file,
    // and an escape in its name
    let info = parse_protocol_info(
        250,
        &info_lines(&[
            "PROTOCOLINFO 1",
            "METHODS=SAFECOOKIE \t COOKIEFILE=\"/a\\\"b\\040c\" ",
            "VERSION Tor=\"0.4\" and more",
            "OK",
        ]),
    )
    .unwrap();
    assert_eq!(info.cookie_file, Some("/a\"b c".to_string()));
    assert_eq!(info.tor_version, "0.4");
    assert!(info.auth_methods.contains(&TorAuthMethod::SafeCookie));
    assert!(!info.auth_methods.contains(&TorAuthMethod::Cookie));
}

#[test]
fn protocol_info_can_be_loaded_once() {
    let mut conn = conn_with(
        "250-PROTOCOLINFO 1\r\n250-AUTH METHODS=NULL\r\n250-VERSION Tor=\"0.4.2.5\"\r\n250 OK\r\n250 OK\r\n",
    );
    conn.load_protocol_info().unwrap();
    assert_eq!(conn.take_output(), b"PROTOCOLINFO 1\r\n");
    assert_eq!(
        conn.load_protocol_info().unwrap_err(),
        ConnError::UnauthenticatedConnError(UnauthenticatedConnError::InfoFetchedTwice)
    );
    // nothing was written and nothing was read
    assert_eq!(conn.take_output(), b"");
    let info = conn.take_protocol_info().unwrap();
    assert_eq!(info.tor_version, "0.4.2.5");
    assert!(conn.get_protocol_info().is_none());
    assert_eq!(
        conn.load_protocol_info().unwrap_err(),
        ConnError::UnauthenticatedConnError(UnauthenticatedConnError::InfoFetchedTwice)
    );
    conn.authenticate(&TorAuthData::Null).unwrap();
    assert_eq!(conn.take_output(), b"AUTHENTICATE\r\n");
}

#[test]
fn protocol_info_in_steps() {
    let twice = ConnError::UnauthenticatedConnError(UnauthenticatedConnError::InfoFetchedTwice);
    let mut state = ProtocolInfoState::new();
    assert!(state.get().is_none());
    assert_eq!(state.request().unwrap(), b"PROTOCOLINFO 1\r\n");
    // a reply that is refused changes nothing
    assert_eq!(
        state.on_reply(515, &vec!["no".to_string()]),
        Err(ConnError::InvalidResponseCode(515))
    );
    assert!(state.get().is_none());
    assert_eq!(state.request().unwrap(), b"PROTOCOLINFO 1\r\n");
    state
        .on_reply(
            250,
            &info_lines(&["PROTOCOLINFO 1", "AUTH METHODS=NULL", "VERSION Tor=\"0.4.2.5\"", "OK"]),
        )
        .unwrap();
    assert_eq!(state.get().unwrap().tor_version, "0.4.2.5");
    assert_eq!(state.request().unwrap_err(), twice);
    let info = state.take().unwrap();
    assert_eq!(info.tor_version, "0.4.2.5");
    assert!(state.get().is_none() && state.take().is_none());
    assert_eq!(state.request().unwrap_err(), twice);
}

#[test]
fn a_failed_load_can_be_tried_again() {
    let mut conn = conn_with("515 no\r\n");
    assert_eq!(conn.load_protocol_info().unwrap_err(), ConnError::InvalidResponseCode(515));
    conn.push_input(
        b"250-PROTOCOLINFO 1\r\n250-AUTH METHODS=NULL\r\n250-VERSION Tor=\"0.4.2.5\"\r\n250 OK\r\n",
    );
    conn.load_protocol_info().unwrap();
}

#[test]
fn authenticate_commands() {
    let nonce = [0x11u8; 32];
    let first = |data: TorAuthData| Authentication::start(&data, &nonce).unwrap();
    assert_eq!(
        first(TorAuthData::Null),
        (Authentication::AwaitStatus, b"AUTHENTICATE\r\n".to_vec())
    );
    assert_eq!(
        first(TorAuthData::HashedPassword("pass \"word\"".to_string())),
        (Authentication::AwaitStatus, b"AUTHENTICATE \"pass\\40\\\"word\\\"\"\r\n".to_vec())
    );
    let mut cookie = vec![0x00, 0x1f, 0xab, 0xff];
    cookie.resize(32, 0x5a);
    assert_eq!(
        first(TorAuthData::Cookie(cookie.clone())),
        (
            Authentication::AwaitStatus,
            format!("AUTHENTICATE 001FABFF{}\r\n", "5A".repeat(28)).into_bytes()
        )
    );
    // the safe procedure asks for a challenge and never sends the cookie
    assert_eq!(
        first(TorAuthData::SafeCookie(cookie.clone())),
        (
            Authentication::AwaitChallenge { cookie: cookie.clone(), nonce },
            format!("AUTHCHALLENGE SAFECOOKIE {}\r\n", "11".repeat(32)).into_bytes()
        )
    );
    assert_eq!(
        make_auth_challenge_request(&[0xde, 0xad, 0xbe, 0xef]),
        b"AUTHCHALLENGE SAFECOOKIE DEADBEEF\r\n"
    );
    for data in [TorAuthData::Cookie(vec![1; 31]), TorAuthData::SafeCookie(vec![])] {
        let refused =
            ConnError::UnauthenticatedConnError(UnauthenticatedConnError::InvalidCookieLength);
        assert_eq!(Authentication::start(&data, &nonce).unwrap_err(), refused);
        assert_eq!(Authentication::begin(&data).unwrap_err(), refused);
    }
}

#[test]
fn authentication_in_steps() {
    let cookie = vec![0x42u8; 32];
    let server_nonce = [0x37u8; 32];
    // the nonce is random: the reply can be made only when the request is seen
    let (state, request) = Authentication::begin(&TorAuthData::SafeCookie(cookie.clone())).unwrap();
    let (other, _) = Authentication::begin(&TorAuthData::SafeCookie(cookie.clone())).unwrap();
    assert_ne!(state, other);
    let text = String::from_utf8(request).unwrap();
    assert!(text.starts_with("AUTHCHALLENGE SAFECOOKIE ") && text.ends_with("\r\n"));
    let nonce = hex::decode(&text[25..25 + 64]).unwrap();
    assert_eq!(text.len(), 25 + 64 + 2);
    assert_eq!(
        state,
        Authentication::AwaitChallenge {
            cookie: cookie.clone(),
            nonce: nonce.clone().try_into().unwrap()
        }
    );
    let line = format!(
        "AUTHCHALLENGE SERVERHASH={} SERVERNONCE={}",
        server_hash(&cookie, &nonce, &server_nonce),
        "37".repeat(32)
    );
    // a reply that is no challenge, or has another status, ends it
    assert_eq!(
        state.clone().on_reply(250, &vec!["OK".to_string()]).unwrap_err(),
        ConnError::InvalidFormat
    );
    assert_eq!(
        state.clone().on_reply(515, &vec![line.clone()]).unwrap_err(),
        ConnError::InvalidResponseCode(515)
    );
    let next = match state.on_reply(250, &vec![line]).unwrap() {
        AuthProgress::Send(next, answer) => {
            assert_eq!(
                String::from_utf8(answer).unwrap(),
                format!("AUTHENTICATE {}\r\n", expected_hash(&cookie, &nonce, &server_nonce))
            );
            next
        }
        AuthProgress::Done => panic!("the challenge is not the end"),
    };
    assert_eq!(next, Authentication::AwaitStatus);
    assert_eq!(next.clone().on_reply(250, &vec!["OK".to_string()]), Ok(AuthProgress::Done));
    assert_eq!(next.on_reply(515, &vec![]), Err(ConnError::InvalidResponseCode(515)));
}

#[test]
fn server_hash_is_checked() {
    let cookie = [0x42u8; 32];
    let client_nonce = [0x11u8; 32];
    let server_nonce = [0x37u8; 32];
    let right: [u8; 32] = hex::decode(server_hash(&cookie, &client_nonce, &server_nonce))
        .unwrap()
        .try_into()
        .unwrap();
    let mismatch =
        Err(ConnError::UnauthenticatedConnError(UnauthenticatedConnError::ServerHashMismatch));
    let check = |cookie: &[u8], nonce: &[u8], server_hash: [u8; 32]| {
        check_server_hash(cookie, nonce, &AuthChallengeResponse { server_hash, server_nonce })
    };
    assert_eq!(check(&cookie, &client_nonce, right), Ok(()));
    // the hash of the client is not the hash of the server
    let client: [u8; 32] = hex::decode(expected_hash(&cookie, &client_nonce, &server_nonce))
        .unwrap()
        .try_into()
        .unwrap();
    assert_eq!(check(&cookie, &client_nonce, client), mismatch);
    // one bit, anywhere
    for i in [0usize, 15, 31] {
        let mut wrong = right;
        wrong[i] ^= 0x80;
        assert_eq!(check(&cookie, &client_nonce, wrong), mismatch);
    }
    // another cookie, another nonce
    assert_eq!(check(&[0x43u8; 32], &client_nonce, right), mismatch);
    assert_eq!(check(&cookie, &[0x12u8; 32], right), mismatch);

    // a server that does not know the cookie gets no answer
    let mut conn = conn_with(&format!(
        "250 AUTHCHALLENGE SERVERHASH={} SERVERNONCE={}\r\n250 OK\r\n",
        "ab".repeat(32),
        "37".repeat(32)
    ));
    assert_eq!(
        conn.authenticate_with_nonce(&TorAuthData::SafeCookie(cookie.to_vec()), &client_nonce),
        mismatch
    );
    assert_eq!(
        String::from_utf8(conn.take_output()).unwrap(),
        format!("AUTHCHALLENGE SAFECOOKIE {}\r\n", "11".repeat(32))
    );
    // and with a nonce that it cannot have known, no reply made before can be right
    let mut conn = conn_with(&format!(
        "250 AUTHCHALLENGE SERVERHASH={} SERVERNONCE={}\r\n250 OK\r\n",
        server_hash(&cookie, &client_nonce, &server_nonce),
        "37".repeat(32)
    ));
    assert_eq!(conn.authenticate(&TorAuthData::SafeCookie(cookie.to_vec())), mismatch);
    let written = String::from_utf8(conn.take_output()).unwrap();
    assert!(written.starts_with("AUTHCHALLENGE SAFECOOKIE ") && written.len() == 25 + 64 + 2);
}

#[test]
fn authenticate_reads_the_status() {
    let mut conn = conn_with("250 OK\r\n515 Bad authentication\r\n");
    conn.authenticate(&TorAuthData::Cookie(vec![0x42; 32])).unwrap();
    assert_eq!(
        conn.take_output(),
        format!("AUTHENTICATE {}\r\n", "42".repeat(32)).as_bytes()
    );
    assert_eq!(
        conn.authenticate(&TorAuthData::HashedPassword("x".to_string())).unwrap_err(),
        ConnError::InvalidResponseCode(515)
    );
    assert_eq!(conn.take_output(), b"AUTHENTICATE \"x\"\r\n");
    assert_eq!(conn.authenticate(&TorAuthData::Null).unwrap_err(), ConnError::IOError);
    // a cookie of another length is refused before anything is written
    assert_eq!(conn.take_output(), b"AUTHENTICATE\r\n");
    for data in [TorAuthData::Cookie(vec![1; 31]), TorAuthData::SafeCookie(vec![1; 33])] {
        assert_eq!(
            conn.authenticate(&data).unwrap_err(),
            ConnError::UnauthenticatedConnError(UnauthenticatedConnError::InvalidCookieLength)
        );
        assert_eq!(conn.take_output(), b"");
    }
}

fn server_hash(cookie: &[u8], client_nonce: &[u8], server_nonce: &[u8]) -> String {
    let mut mac = <Hmac<Sha256>>::new_varkey(
        b"Tor safe cookie authentication server-to-controller hash",
    )
    .unwrap();
    mac.input(cookie);
    mac.input(client_nonce);
    mac.input(server_nonce);
    hex::encode_upper(mac.result().code())
}

fn expected_hash(cookie: &[u8], client_nonce: &[u8], server_nonce: &[u8]) -> String {
    let mut mac = <Hmac<Sha256>>::new_varkey(
        b"Tor safe cookie authentication controller-to-server hash",
    )
    .unwrap();
    mac.input(cookie);
    mac.input(client_nonce);
    mac.input(server_nonce);
    hex::encode_upper(mac.result().code())
}

#[test]
fn safe_cookie_answer_is_the_hmac_of_cookie_and_nonces() {
    let cookie = [0x42u8; 32];
    let server_nonce = [0x37u8; 32];
    let client_nonce = [0x11u8; 32];
    let request = make_safe_cookie_request(&cookie, &client_nonce, &server_nonce);
    assert_eq!(
        String::from_utf8(request.clone()).unwrap(),
        format!(
            "AUTHENTICATE {}\r\n",
            expected_hash(&cookie, &client_nonce, &server_nonce)
        )
    );
    assert_eq!(request.len(), 13 + 64 + 2);
    // another nonce gives another hash
    assert_ne!(request, make_safe_cookie_request(&cookie, &[0x12u8; 32], &server_nonce));
}

#[test]
fn safe_cookie_procedure() {
    let cookie = vec![0x42u8; 32];
    let server_nonce = [0x37u8; 32];
    let client_nonce = [0x11u8; 32];
    let challenge = format!(
        "250 AUTHCHALLENGE SERVERHASH={} SERVERNONCE={}\r\n250 OK\r\n",
        server_hash(&cookie, &client_nonce, &server_nonce),
        "37".repeat(32)
    );
    let mut conn = conn_with(&challenge);
    conn.authenticate_with_nonce(&TorAuthData::SafeCookie(cookie.clone()), &client_nonce)
        .unwrap();
    assert_eq!(
        String::from_utf8(conn.take_output()).unwrap(),
        format!(
            "AUTHCHALLENGE SAFECOOKIE {}\r\nAUTHENTICATE {}\r\n",
            "11".repeat(32),
            expected_hash(&cookie, &client_nonce, &server_nonce)
        )
    );

    // a challenge that is refused ends the procedure
    let mut conn = conn_with("513 no\r\n250 OK\r\n");
    assert_eq!(
        conn.authenticate_with_nonce(&TorAuthData::SafeCookie(cookie), &client_nonce)
            .unwrap_err(),
        ConnError::InvalidResponseCode(513)
    );
    assert_eq!(
        String::from_utf8(conn.take_output()).unwrap(),
        format!("AUTHCHALLENGE SAFECOOKIE {}\r\n", "11".repeat(32))
    );
}

#[test]
fn auth_challenge_reply() {
    let line = format!(
        "AUTHCHALLENGE SERVERHASH={} SERVERNONCE={}",
        "3AB21C1D4E7337F2CC4460C9973B13EE42944E6455131A8CA0CF10628BCBACF2",
        "db3b06356534de8732c8c858f543d0e55b8d44a2353f913b5f36e23a61537d86"
    );
    let r = parse_auth_challenge(250, &vec![line.clone()]).unwrap();
    assert_eq!(r.server_hash[0], 0x3a);
    assert_eq!(r.server_hash[31], 0xf2);
    assert_eq!(r.server_nonce[0], 0xdb);
    assert_eq!(r.server_nonce[31], 0x86);
    assert_eq!(
        parse_auth_challenge(551, &vec![line.clone()]).unwrap_err(),
        ConnError::InvalidResponseCode(551)
    );
    assert_eq!(
        parse_auth_challenge(250, &vec![line.clone(), "OK".to_string()]).unwrap_err(),
        ConnError::InvalidFormat
    );
    assert_eq!(parse_auth_challenge(250, &vec![]).unwrap_err(), ConnError::InvalidFormat);
    for bad in [
        line.replace("3AB2", "3AG2"),
        line.replace("SERVERHASH", "SERVERHASh"),
        line.replace(" SERVERNONCE", "_SERVERNONCE"),
        format!("{}0", line),
        line[..line.len() - 1].to_string(),
    ] {
        assert_eq!(
            parse_auth_challenge(250, &vec![bad]).unwrap_err(),
            ConnError::InvalidFormat
        );
    }
}

#[test]
fn automatic_authentication_data() {
    let info = |lines: &[&str]| parse_protocol_info(250, &info_lines(lines)).unwrap();
    let cookie = [7u8; 32];
    let null = info(&["PROTOCOLINFO 1", "AUTH METHODS=NULL,COOKIE", "VERSION Tor=\"1\"", "OK"]);
    assert_eq!(null.automatic_auth_method(), Some(TorAuthMethod::Null));
    assert_eq!(
        null.make_auth_data(&[]).unwrap().unwrap().get_method(),
        TorAuthMethod::Null
    );
    let safe = info(&[
        "PROTOCOLINFO 1",
        "AUTH METHODS=COOKIE,SAFECOOKIE COOKIEFILE=\"/c\"",
        "VERSION Tor=\"1\"",
        "OK",
    ]);
    match safe.make_auth_data(&cookie).unwrap().unwrap() {
        TorAuthData::SafeCookie(c) => assert_eq!(c, cookie),
        other => panic!("{:?}", other),
    }
    assert_eq!(
        safe.make_auth_data(&cookie[..31]).unwrap_err(),
        UnauthenticatedConnError::InvalidCookieLength
    );
    let plain = info(&[
        "PROTOCOLINFO 1",
        "AUTH METHODS=COOKIE,HASHEDPASSWORD COOKIEFILE=\"/c\"",
        "VERSION Tor=\"1\"",
        "OK",
    ]);
    match plain.make_auth_data(&cookie).unwrap().unwrap() {
        TorAuthData::Cookie(c) => assert_eq!(c, cookie),
        other => panic!("{:?}", other),
    }
    let no_file = info(&["PROTOCOLINFO 1", "AUTH METHODS=COOKIE", "VERSION Tor=\"1\"", "OK"]);
    assert!(no_file.make_auth_data(&cookie).unwrap().is_none());
    // the cookie file is asked for only where the cookie is needed
    assert_eq!(null.cookie_file_needed(), None);
    assert_eq!(safe.cookie_file_needed(), Some(&"/c".to_string()));
    assert_eq!(plain.cookie_file_needed(), Some(&"/c".to_string()));
    assert_eq!(no_file.cookie_file_needed(), None);
    let both = info(&[
        "PROTOCOLINFO 1",
        "AUTH METHODS=NULL,SAFECOOKIE COOKIEFILE=\"/c\"",
        "VERSION Tor=\"1\"",
        "OK",
    ]);
    assert_eq!(both.cookie_file_needed(), None);
    let password =
        info(&["PROTOCOLINFO 1", "AUTH METHODS=HASHEDPASSWORD", "VERSION Tor=\"1\"", "OK"]);
    assert!(password.make_auth_data(&cookie).unwrap().is_none());
    assert_eq!(TorAuthMethod::from_str("SAFECOOKIE"), Ok(TorAuthMethod::SafeCookie));
    assert_eq!(TorAuthMethod::from_str("safecookie"), Err(()));
    assert_eq!(
        TorAuthData::HashedPassword(String::new()).get_method(),
        TorAuthMethod::HashedPassword
    );
}

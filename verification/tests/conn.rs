use torut::control::conn::conn::{Conn, ConnError, ReplyParser};

fn read(input: &[u8], limit: usize) -> Result<(u16, Vec<String>), ConnError> {
    let mut conn = Conn::with_limit(limit);
    conn.push_input(input);
    conn.receive_data()
}

#[test]
fn test_conn_can_read_response() {
    for (input, output) in [
        ("250 Ok line one\r\n", Some((250u16, vec!["Ok line one"]))),
        ("250-L1\r\n250 L2\r\n", Some((250, vec!["L1", "L2"]))),
        ("250-LANDER=MAAR\r\n250 L2\r\n", Some((250, vec!["LANDER=MAAR", "L2"]))),
        ("250-default\r\n250 key=value\r\n", Some((250, vec!["default", "key=value"]))),
        (
            "250-abc\r\n250+abcd\r\n second line\r\n.\r\n250 OK\r\n",
            Some((250, vec!["abc", "abcd\r\n second line", "OK"])),
        ),
        ("250-abc\r\n250+abcd\r\n second line\r\n.\r\n250 OK", None),
        ("250-abc\r\n250+abcd\r\n second line\r\n.\r\n", None),
        ("250-abc\r\n250+abcd\r\n second line", None),
    ]
    .iter()
    .cloned()
    {
        let mut conn = Conn::new();
        conn.push_input(input.as_bytes());
        if let Some((valid_code, valid_res)) = output {
            let (given_code, given_res) = conn.receive_data().unwrap();
            assert_eq!(valid_code, given_code);
            let res2_ref = given_res.iter().map(|s| s as &str).collect::<Vec<_>>();
            assert_eq!(valid_res, res2_ref);
        } else {
            assert_eq!(conn.receive_data().unwrap_err(), ConnError::IOError);
        }
    }
}

#[test]
fn framing_errors() {
    assert_eq!(read(b"25x OK\r\n", 100).unwrap_err(), ConnError::InvalidCharacterFound);
    assert_eq!(read(b"250/OK\r\n", 100).unwrap_err(), ConnError::InvalidCharacterFound);
    assert_eq!(read(b"250 O\xc5\x81\r\n", 100).unwrap_err(), ConnError::NonAsciiByteFound);
    assert_eq!(
        read(b"250-A\r\n251 B\r\n", 100).unwrap_err(),
        ConnError::ResponseCodeMismatch
    );
    assert_eq!(
        read(b"250+A\r\n.\r\n250-B\r\n550 C\r\n", 100).unwrap_err(),
        ConnError::ResponseCodeMismatch
    );
    // a bare line feed ends no line
    assert_eq!(read(b"250 OK\n", 100).unwrap_err(), ConnError::IOError);
    assert_eq!(read(b"", 100).unwrap_err(), ConnError::IOError);
}

#[test]
fn data_line_keeps_what_looks_like_its_end() {
    let (code, lines) = read(b"250+a\r\n.b\r\n.\r\n250 OK\r\n", 100).unwrap();
    assert_eq!(code, 250);
    assert_eq!(lines, vec!["a\r\n.b", "OK"]);
    let (_, lines) = read(b"250+\r\n.\r\n250 OK\r\n", 100).unwrap();
    assert_eq!(lines, vec!["", "OK"]);
    let (code, lines) = read(b"000 \r\n", 100).unwrap();
    assert_eq!((code, lines), (0, vec![String::new()]));
    let (code, _) = read(b"999 x\r\n", 100).unwrap();
    assert_eq!(code, 999);
}

#[test]
fn byte_ceiling() {
    let reply = b"250-abc\r\n250 OK\r\n";
    assert_eq!(reply.len(), 17);
    assert_eq!(read(reply, 16).unwrap_err(), ConnError::TooManyBytesRead);
    assert_eq!(read(reply, 17).unwrap(), (250, vec!["abc".to_string(), "OK".to_string()]));
    assert_eq!(read(reply, 18).unwrap(), (250, vec!["abc".to_string(), "OK".to_string()]));
    assert_eq!(read(reply, 0).unwrap_err(), ConnError::TooManyBytesRead);
    // at the ceiling the ceiling is reported, not the end of the input
    assert_eq!(read(&reply[..16], 16).unwrap_err(), ConnError::TooManyBytesRead);
    assert_eq!(read(&reply[..16], 17).unwrap_err(), ConnError::IOError);
}

#[test]
fn replies_are_read_one_after_the_other() {
    let mut conn = Conn::new();
    conn.push_input(b"650 CIRC 1 LAUNCHED\r\n250-version=0.4.2.5\r\n");
    conn.push_input(b"250 OK\r\n");
    assert_eq!(conn.receive_data().unwrap(), (650, vec!["CIRC 1 LAUNCHED".to_string()]));
    assert_eq!(
        conn.receive_data().unwrap(),
        (250, vec!["version=0.4.2.5".to_string(), "OK".to_string()])
    );
    assert_eq!(conn.receive_data().unwrap_err(), ConnError::IOError);
    conn.write_data(b"abc").unwrap();
    conn.write_data(b"def").unwrap();
    assert_eq!(conn.take_output(), b"abcdef");
    assert_eq!(conn.take_output(), b"");
    conn.push_input(b"rest");
    let (unread, written) = conn.into_inner();
    assert_eq!(unread, b"rest");
    assert_eq!(written, b"");
}

#[test]
fn parser_takes_bytes_one_at_a_time() {
    let mut parser = ReplyParser::new(64);
    let input = b"250-A\r\n250 B\r\n650 C\r\n";
    let mut replies = Vec::new();
    for b in input.iter() {
        assert!(parser.can_read());
        if let Some(reply) = parser.push(*b).unwrap() {
            replies.push(reply);
        }
    }
    assert_eq!(
        replies,
        vec![
            (250, vec!["A".to_string(), "B".to_string()]),
            (650, vec!["C".to_string()])
        ]
    );
    // after an error the parser starts anew
    assert_eq!(parser.push(b'x').unwrap_err(), ConnError::InvalidCharacterFound);
    for b in b"250 D\r".iter() {
        assert_eq!(parser.push(*b).unwrap(), None);
    }
    assert_eq!(parser.push(b'\n').unwrap(), Some((250, vec!["D".to_string()])));
}

use torut::utils::key_value::parse_single_key_value;
use torut::utils::octal_ascii_triple_to_byte;
use torut::utils::quoted::{quote_string, unquote_string};
use torut::utils::run::{announces_control_listener, contains_bytes};

#[test]
fn test_can_decode_octal_ascii_triple() {
    for (i, o) in [
        (*b"\0\00", Some(0)),
        (*b"123", Some(83)),
        ([0u8, 0, 48], Some(0)),
        ([50u8, 49, 51], Some(139)),
    ]
    .iter()
    .cloned()
    {
        assert_eq!(octal_ascii_triple_to_byte(i), o);
    }
}

#[test]
fn test_can_parse_single_key_value() {
    for (i, o) in [
        ("KEY=VALUE", Some(("KEY", "VALUE"))),
        ("KEY=\"VALUE\"", Some(("KEY", "\"VALUE\""))),
        (
            "KEY=Some\nMultiline\nValue\nIt\nHappens\nSometimes",
            Some(("KEY", "Some\nMultiline\nValue\nIt\nHappens\nSometimes")),
        ),
    ]
    .iter()
    .cloned()
    {
        if let Some(o) = o {
            let (k, v) = o;
            let (key, res) = parse_single_key_value(i).unwrap();
            assert_eq!(key, k);
            assert_eq!(res, v);
        } else {
            let _ = parse_single_key_value(i).unwrap_err();
        }
    }
}

#[test]
fn test_can_quote_and_unquote_string() {
    for input in ["asdf", "\0\0\0\0", "ŁŁŁ", r#"""""#, "\n\t\r"].iter().cloned() {
        assert_eq!(
            input,
            unquote_string(&quote_string(input.as_bytes())).1.unwrap().as_str()
        )
    }
}

#[test]
fn test_can_unquote_string() {
    for (input, output) in [
        ("not quoted string", (None, Ok("not quoted string"))),
        ("\"and a quoted one\"", (Some(17), Ok("and a quoted one"))),
        ("\"esc backslash \\\\ \"", (Some(18), Ok("esc backslash \\ "))),
        (
            r#""\0\0\0\0\213\321\3\123\312\31\221\312""#,
            (
                Some(38),
                Err(&[0u8, 0, 0, 0, 0o213, 0o321, 0o3, 0o123, 0o312, 0o31, 0o221, 0o312] as &[u8]),
            ),
        ),
        (
            r#""\0\0\0\0\213\321\3\123\312\31\221\31""#,
            (
                Some(37),
                Err(&[0u8, 0, 0, 0, 0o213, 0o321, 0o3, 0o123, 0o312, 0o31, 0o221, 0o31] as &[u8]),
            ),
        ),
        (
            r#""\0\0\0\0\213\321\3\123\312\31\221\3""#,
            (
                Some(36),
                Err(&[0u8, 0, 0, 0, 0o213, 0o321, 0o3, 0o123, 0o312, 0o31, 0o221, 0o3] as &[u8]),
            ),
        ),
        ("\"q\\\"q\"", (Some(5), Ok("q\"q"))),
        ("\"first\"\"second\"", (Some(6), Ok("first"))),
    ]
    .iter()
    .cloned()
    {
        let (expected_offset, expected_value) = output;
        let (offset, value) = unquote_string(input);
        let value = value.map_err(|e| e.into_bytes());
        assert_eq!(offset, expected_offset);
        assert_eq!(
            value.as_ref().map(|v| v.as_str()).map_err(|e| e.as_slice()),
            expected_value
        );
    }
}

#[test]
fn quoting_writes_each_byte_in_its_form() {
    assert_eq!(quote_string(b"asdf"), r#""asdf""#);
    assert_eq!(quote_string("ŁŁ".as_bytes()), r#""\305\201\305\201""#);
    assert_eq!(quote_string("\n\r\t".as_bytes()), r#""\n\r\t""#);
    assert_eq!(quote_string("\0\0\0".as_bytes()), r#""\0\0\0""#);
    assert_eq!(quote_string(b"a\"b\\c"), r#""a\"b\\c""#);
    assert_eq!(quote_string(b" \x07\x08\x3f\x40\x7f\xff"), r#""\40\7\10?@\177\377""#);
    assert_eq!(quote_string(b""), r#""""#);
}

#[test]
fn quoted_text_is_read_back() {
    for input in [
        &b""[..],
        b"plain",
        b"with space",
        b"\x00\x01\x02 end",
        b"\xff\xfe\x80",
        b"tab\tquote\"backslash\\",
        b"digits 89 stay",
    ] {
        let quoted = quote_string(input);
        let (end, res) = unquote_string(&quoted);
        assert_eq!(end, Some(quoted.len() - 1));
        let bytes = match res {
            Ok(text) => text.into_bytes(),
            Err(e) => e.into_bytes(),
        };
        assert_eq!(bytes, input);
    }
    for (a, b) in [(&b"a"[..], &b"b"[..]), (b"\n", b"n"), (b"\\", b"\\\\"), (b" ", b"40")] {
        assert_ne!(quote_string(a), quote_string(b));
    }
}

#[test]
fn an_octal_digit_behind_a_short_escape_joins_it() {
    // the byte 1 in front of the digit 3 is written like the byte 11
    assert_eq!(quote_string(&[1, b'3']), quote_string(&[11]));
    assert_eq!(unquote_string(&quote_string(&[1, b'3'])).1.unwrap(), "\x0b");
    // a space in front of a digit gives a number above 255
    assert_eq!(quote_string(b"a 1"), r#""a\401""#);
    assert_eq!(unquote_string(r#""a\401""#).1.unwrap(), "a401");
}

#[test]
fn unquoting_reads_escapes_as_they_come() {
    for (input, end, output) in [
        (r#""\8\9""#, Some(5), "89"),
        (r#""\x\y""#, Some(5), "xy"),
        (r#""\1234""#, Some(6), "S4"),
        (r#""\777""#, Some(5), "777"),
        (r#""\18""#, Some(4), "\u{1}8"),
        (r#""a"#, None, r#""a"#),
        (r#""a\""#, None, r#""a\""#),
        (r#""""#, Some(1), ""),
        (r#"""#, None, r#"""#),
        ("", None, ""),
        (r#"a"b""#, None, r#"a"b""#),
        ("\"Ł\\Ł\"", Some(6), "ŁŁ"),
    ] {
        let (offset, value) = unquote_string(input);
        assert_eq!(offset, end, "{}", input);
        assert_eq!(value.unwrap(), output, "{}", input);
    }
}

#[test]
fn key_value_is_split_at_the_first_equals_sign() {
    assert_eq!(parse_single_key_value("KEY=VALUE"), Ok(("KEY", "VALUE")));
    assert_eq!(parse_single_key_value("INVALID"), Err(()));
    assert_eq!(parse_single_key_value("VALID="), Ok(("VALID", "")));
    assert_eq!(
        parse_single_key_value("KEY=\"QUOTED VALUE\""),
        Ok(("KEY", "\"QUOTED VALUE\""))
    );
    assert_eq!(parse_single_key_value("a b-c_d/e$9=x=y"), Ok(("a b-c_d/e$9", "x=y")));
    assert_eq!(parse_single_key_value("=x"), Err(()));
    assert_eq!(parse_single_key_value(""), Err(()));
    assert_eq!(parse_single_key_value("a.b=c"), Err(()));
    assert_eq!(parse_single_key_value("k=Ł"), Ok(("k", "Ł")));
    assert_eq!(parse_single_key_value("Ł=k"), Err(()));
}

#[test]
fn control_listener_line() {
    assert!(announces_control_listener(
        "Jan 01 00:00:00.000 [notice] Opened Control listener on 127.0.0.1:9051\n"
    ));
    assert!(announces_control_listener("Opened Control listener"));
    assert!(!announces_control_listener("Opened Control listene"));
    assert!(!announces_control_listener("opened control listener"));
    assert!(!announces_control_listener(""));
    assert!(contains_bytes(b"abcabd", b"abd"));
    assert!(contains_bytes(b"abc", b""));
    assert!(contains_bytes(b"", b""));
    assert!(!contains_bytes(b"ab", b"abc"));
    assert!(!contains_bytes(b"abcabc", b"abd"));
}

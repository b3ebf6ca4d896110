use mpv_remote::codec::{decode_reply, encode_get_property, encode_set_property_bool,
    encode_set_property_string, find_line_end};
use mpv_remote::error::ProtocolError;
use mpv_remote::value::PropertyValue;

#[test]
fn encode_get_is_one_json_line() {
    let cmd = encode_get_property("pause");
    assert_eq!(cmd, "{\"command\":[\"get_property\",\"pause\"]}\n");
}

#[test]
fn encode_set_bool_true_and_false() {
    assert_eq!(
        encode_set_property_bool("pause", true),
        "{\"command\":[\"set_property\",\"pause\",true]}\n"
    );
    assert_eq!(
        encode_set_property_bool("pause", false),
        "{\"command\":[\"set_property\",\"pause\",false]}\n"
    );
}

#[test]
fn encode_set_string_volume() {
    assert_eq!(
        encode_set_property_string("volume", "50"),
        "{\"command\":[\"set_property_string\",\"volume\",\"50\"]}\n"
    );
}

#[test]
fn encoded_commands_are_valid_json() {
    for cmd in [
        encode_get_property("track-list/count"),
        encode_set_property_bool("pause", true),
        encode_set_property_string("volume", "48.5"),
    ] {
        let v: serde_json::Value = serde_json::from_str(cmd.trim_end()).expect("valid JSON");
        assert!(v.get("command").is_some());
    }
}

#[test]
fn decode_bool_reply() {
    let r = decode_reply(b"{\"data\":true,\"request_id\":0,\"error\":\"success\"}\n");
    match r {
        Ok(PropertyValue::Bool(b)) => assert!(b),
        other => panic!("unexpected: {:?}", other),
    }
}

#[test]
fn decode_integer_reply() {
    let r = decode_reply(b"{\"data\":3}");
    match r {
        Ok(PropertyValue::Int(n)) => assert_eq!(n, 3),
        other => panic!("unexpected: {:?}", other),
    }
    let r = decode_reply(b"{\"data\":-17}");
    match r {
        Ok(PropertyValue::Int(n)) => assert_eq!(n, -17),
        other => panic!("unexpected: {:?}", other),
    }
}

#[test]
fn decode_fractional_reply_in_millionths() {
    let r = decode_reply(b"{\"data\":120.5}");
    match r {
        Ok(PropertyValue::Num(f)) => assert_eq!(f.micros, 120_500_000),
        other => panic!("unexpected: {:?}", other),
    }
    let r = decode_reply(b"{\"data\":-0.25}");
    match r {
        Ok(PropertyValue::Num(f)) => assert_eq!(f.micros, -250_000),
        other => panic!("unexpected: {:?}", other),
    }
    let r = decode_reply(b"{\"data\":48.000000}");
    match r {
        Ok(PropertyValue::Num(f)) => assert_eq!(f.micros, 48_000_000),
        other => panic!("unexpected: {:?}", other),
    }
}

#[test]
fn decode_string_reply_with_escapes() {
    let r = decode_reply(b"{\"data\":\"a\\\"b \\\\ c\"}");
    match r {
        Ok(PropertyValue::Str(s)) => assert_eq!(s, "a\"b \\ c"),
        other => panic!("unexpected: {:?}", other),
    }
}

#[test]
fn decode_utf8_string_reply() {
    let raw = "{\"data\":\"Am\u{e9}lie \u{2014} \u{41f}\u{440}\u{438}\u{432}\u{435}\u{442}\"}".as_bytes();
    let r = decode_reply(raw);
    match r {
        Ok(PropertyValue::Str(s)) => {
            assert_eq!(s, "Am\u{e9}lie \u{2014} \u{41f}\u{440}\u{438}\u{432}\u{435}\u{442}")
        },
        other => panic!("unexpected: {:?}", other),
    }
}

#[test]
fn invalid_utf8_in_string_is_malformed() {
    let raw: &[u8] = b"{\"data\":\"a\xffb\"}";
    assert_eq!(decode_reply(raw).unwrap_err(), ProtocolError::Malformed);
}

#[test]
fn decode_null_reply() {
    let r = decode_reply(b"{\"data\":null}");
    assert!(matches!(r, Ok(PropertyValue::Null)));
}

#[test]
fn reply_without_data_is_malformed() {
    let r = decode_reply(b"{\"request_id\":0,\"error\":\"property unavailable\"}\n");
    assert_eq!(r.unwrap_err(), ProtocolError::Malformed);
}

#[test]
fn truncated_reply_is_malformed() {
    let r = decode_reply(b"{\"data\":tr");
    assert_eq!(r.unwrap_err(), ProtocolError::Malformed);
    let r = decode_reply(b"{\"data\":\"unterminated");
    assert_eq!(r.unwrap_err(), ProtocolError::Malformed);
    let r = decode_reply(b"");
    assert_eq!(r.unwrap_err(), ProtocolError::Malformed);
}

#[test]
fn oversized_number_is_malformed() {
    let r = decode_reply(b"{\"data\":99999999999999999999}");
    assert_eq!(r.unwrap_err(), ProtocolError::Malformed);
    let r = decode_reply(b"{\"data\":9999999999999.5}");
    assert_eq!(r.unwrap_err(), ProtocolError::Malformed);
}

#[test]
fn decoder_agrees_with_reference_parser_on_samples() {
    let samples: [&[u8]; 4] = [
        b"{\"data\":true}",
        b"{\"data\":42}",
        b"{\"data\":\"sub\"}",
        b"{\"data\":null}",
    ];
    for raw in samples {
        let ours = decode_reply(raw).expect("decodes");
        let theirs: serde_json::Value = serde_json::from_slice(raw).expect("valid JSON");
        let data = theirs.get("data").expect("has data");
        match (&ours, data) {
            (PropertyValue::Bool(b), serde_json::Value::Bool(c)) => assert_eq!(b, c),
            (PropertyValue::Int(n), serde_json::Value::Number(c)) => {
                assert_eq!(*n, c.as_i64().expect("integer"))
            },
            (PropertyValue::Str(s), serde_json::Value::String(c)) => assert_eq!(s, c),
            (PropertyValue::Null, serde_json::Value::Null) => {},
            other => panic!("disagreement: {:?}", other),
        }
    }
}

#[test]
fn find_line_end_locates_first_newline() {
    assert_eq!(find_line_end(b"abc\ndef\n"), Some(3));
    assert_eq!(find_line_end(b"\n"), Some(0));
    assert_eq!(find_line_end(b"abc"), None);
    assert_eq!(find_line_end(b""), None);
}

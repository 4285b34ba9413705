use otrsp::device::aux_value_of_reply;
use otrsp::protocol::{
    encode_aux, encode_query_aux, encode_raw, parse_aux_response, parse_aux_text,
    parse_name_response, parse_name_text,
};
use otrsp::text::{decimal_string, has_prefix, parse_u8_str, trim_str, white_space};
use otrsp::Error;

#[test]
fn aux_round_trip_every_valid_pair() {
    for port in 0u8..=9 {
        for value in 0u8..=255 {
            let wire = encode_aux(port, value).unwrap();
            let (p, v) = parse_aux_response(&wire).unwrap();
            assert_eq!((p, v), (port, value));
            assert_eq!(encode_aux(p, v).unwrap(), wire);
        }
    }
}

#[test]
fn ports_above_nine_are_rejected_before_encoding() {
    for port in 10u8..=255 {
        match encode_aux(port, 7) {
            Err(Error::InvalidParameter(_)) => {}
            other => panic!("expected InvalidParameter, got {other:?}"),
        }
        match encode_query_aux(port) {
            Err(Error::InvalidParameter(_)) => {}
            other => panic!("expected InvalidParameter, got {other:?}"),
        }
    }
}

#[test]
fn invalid_port_message_names_the_port() {
    match encode_aux(10, 0) {
        Err(Error::InvalidParameter(m)) => assert_eq!(m, "AUX port must be 0-9, got 10"),
        other => panic!("expected InvalidParameter, got {other:?}"),
    }
    match encode_query_aux(200) {
        Err(Error::InvalidParameter(m)) => assert_eq!(m, "AUX port must be 0-9, got 200"),
        other => panic!("expected InvalidParameter, got {other:?}"),
    }
}

#[test]
fn query_name_scenarios() {
    assert_eq!(parse_name_response(b"NAMESO2RDUINO\r"), "SO2RDUINO");
    assert_eq!(parse_name_response(b"RigSelect Pro\r"), "RigSelect Pro");
    assert_eq!(parse_name_response(b"NAME  YCCC SO2R  \r"), "YCCC SO2R");
}

#[test]
fn name_edge_cases() {
    assert_eq!(parse_name_text("NAME"), "");
    assert_eq!(parse_name_text(""), "");
    assert_eq!(parse_name_text("  \r\n"), "");
    assert_eq!(parse_name_text("\u{a0}NAMEBox\u{3000}"), "Box");
    assert_eq!(parse_name_text("XNAMEBox"), "XNAMEBox");
}

#[test]
fn name_reply_with_invalid_utf8_is_replaced() {
    assert_eq!(parse_name_response(b"NAME\xffX\r"), "\u{fffd}X");
}

#[test]
fn query_aux_scenarios() {
    assert_eq!(parse_aux_response(b"AUX14\r").unwrap(), (1, 4));
    assert_eq!(parse_aux_response(b"AUX2255\r\n").unwrap(), (2, 255));
    assert!(matches!(parse_aux_response(b"AUXabc\r"), Err(Error::Protocol(_))));
    assert!(matches!(parse_aux_response(b"NOTAUX\r"), Err(Error::Protocol(_))));
}

#[test]
fn aux_reply_error_messages() {
    match parse_aux_text("NOTAUX\r") {
        Err(Error::Protocol(m)) => assert_eq!(m, "expected AUX prefix, got: NOTAUX"),
        other => panic!("expected Protocol, got {other:?}"),
    }
    match parse_aux_text("AUX\r") {
        Err(Error::Protocol(m)) => assert_eq!(m, "AUX response missing port and value"),
        other => panic!("expected Protocol, got {other:?}"),
    }
    match parse_aux_text("AUXabc\r") {
        Err(Error::Protocol(m)) => assert_eq!(m, "invalid AUX port digit: a"),
        other => panic!("expected Protocol, got {other:?}"),
    }
    match parse_aux_text("AUX1256\r") {
        Err(Error::Protocol(m)) => assert_eq!(m, "invalid AUX value: 256"),
        other => panic!("expected Protocol, got {other:?}"),
    }
    match parse_aux_text("AUX1\r") {
        Err(Error::Protocol(m)) => assert_eq!(m, "invalid AUX value: "),
        other => panic!("expected Protocol, got {other:?}"),
    }
}

#[test]
fn aux_value_forms_that_u8_accepts() {
    assert_eq!(parse_aux_text("AUX1+5").unwrap(), (1, 5));
    assert_eq!(parse_aux_text("AUX1007").unwrap(), (1, 7));
    assert_eq!(parse_aux_text("  AUX30\n").unwrap(), (3, 0));
    assert!(parse_aux_text("AUX1-5").is_err());
    assert!(parse_aux_text("AUX1+").is_err());
    assert!(parse_aux_text("AUX1 5").is_err());
}

#[test]
fn aux_reply_for_other_port_is_a_mismatch() {
    match aux_value_of_reply(1, "AUX24\r") {
        Err(Error::Protocol(m)) => {
            assert!(m.contains("mismatch"));
            assert_eq!(m, "AUX port mismatch: requested port 1, got port 2");
        }
        other => panic!("expected Protocol, got {other:?}"),
    }
    assert_eq!(aux_value_of_reply(1, "AUX14\r").unwrap(), 4);
    assert!(matches!(aux_value_of_reply(1, "AUXx\r"), Err(Error::Protocol(_))));
}

#[test]
fn raw_commands_keep_their_text() {
    assert_eq!(encode_raw(""), b"\r");
    assert_eq!(encode_raw("é"), "é\r".as_bytes());
}

#[test]
fn text_helpers() {
    assert_eq!(trim_str(" \t a b \r\n"), "a b");
    assert_eq!(trim_str("\u{2003}x\u{85}"), "x");
    assert!(white_space('\u{205f}'));
    assert!(!white_space('\u{200b}'));
    assert!(has_prefix("AUX1", "AUX"));
    assert!(!has_prefix("AU", "AUX"));
    assert_eq!(parse_u8_str("255"), Some(255));
    assert_eq!(parse_u8_str("0000000000012"), Some(12));
    assert_eq!(parse_u8_str("99999999999999999999"), None);
    assert_eq!(parse_u8_str(""), None);
    assert_eq!(decimal_string(0), "0");
    assert_eq!(decimal_string(47), "47");
    assert_eq!(decimal_string(255), "255");
}

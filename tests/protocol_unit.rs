use otrsp::protocol::{
    encode_aux, encode_query_aux, encode_query_name, encode_raw, encode_rx, encode_tx,
    parse_aux_response, parse_name_response,
};
use otrsp::{Radio, RxMode};

#[test]
fn test_encode_tx() {
    assert_eq!(encode_tx(Radio::Radio1), b"TX1\r");
    assert_eq!(encode_tx(Radio::Radio2), b"TX2\r");
}

#[test]
fn test_encode_rx_mono() {
    assert_eq!(encode_rx(Radio::Radio1, RxMode::Mono), b"RX1\r");
    assert_eq!(encode_rx(Radio::Radio2, RxMode::Mono), b"RX2\r");
}

#[test]
fn test_encode_rx_stereo() {
    assert_eq!(encode_rx(Radio::Radio1, RxMode::Stereo), b"RX1S\r");
    assert_eq!(encode_rx(Radio::Radio2, RxMode::Stereo), b"RX2S\r");
}

#[test]
fn test_encode_rx_reverse_stereo() {
    assert_eq!(encode_rx(Radio::Radio1, RxMode::ReverseStereo), b"RX1R\r");
    assert_eq!(encode_rx(Radio::Radio2, RxMode::ReverseStereo), b"RX2R\r");
}

#[test]
fn test_encode_aux() {
    assert_eq!(encode_aux(1, 4).unwrap(), b"AUX14\r");
    assert_eq!(encode_aux(2, 255).unwrap(), b"AUX2255\r");
    assert_eq!(encode_aux(0, 0).unwrap(), b"AUX00\r");
    assert_eq!(encode_aux(9, 128).unwrap(), b"AUX9128\r");
}

#[test]
fn test_encode_aux_invalid_port() {
    assert!(encode_aux(10, 0).is_err());
}

#[test]
fn test_encode_query_name() {
    assert_eq!(encode_query_name(), b"?NAME\r");
}

#[test]
fn test_encode_query_aux() {
    assert_eq!(encode_query_aux(1).unwrap(), b"?AUX1\r");
    assert_eq!(encode_query_aux(0).unwrap(), b"?AUX0\r");
    assert!(encode_query_aux(10).is_err());
}

#[test]
fn test_encode_raw() {
    assert_eq!(encode_raw("HELLO"), b"HELLO\r");
    assert_eq!(encode_raw("TX1"), b"TX1\r");
}

#[test]
fn test_parse_name_response() {
    // Real devices respond with NAME prefix
    assert_eq!(parse_name_response(b"NAMESO2RDUINO\r"), "SO2RDUINO");
    assert_eq!(parse_name_response(b"NAMERigSelect Pro\r\n"), "RigSelect Pro");
    assert_eq!(parse_name_response(b"NAME  YCCC SO2R  \r"), "YCCC SO2R");
    assert_eq!(parse_name_response(b"NAMEDeviceName"), "DeviceName");
    // Graceful handling of responses without NAME prefix
    assert_eq!(parse_name_response(b"SO2RDUINO\r"), "SO2RDUINO");
}

#[test]
fn test_parse_aux_response() {
    assert_eq!(parse_aux_response(b"AUX14\r").unwrap(), (1, 4));
    assert_eq!(parse_aux_response(b"AUX2255\r\n").unwrap(), (2, 255));
    assert_eq!(parse_aux_response(b"AUX00\r").unwrap(), (0, 0));
}

#[test]
fn test_parse_aux_response_invalid() {
    assert!(parse_aux_response(b"NOTAUX\r").is_err());
    assert!(parse_aux_response(b"AUX\r").is_err());
    assert!(parse_aux_response(b"AUXabc\r").is_err());
}

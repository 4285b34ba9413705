//! OTRSP command encoding and reply parsing.
//!
//! Every command is ASCII text ending in a carriage return; its wire form is
//! the UTF-8 encoding of that text.
use vstd::prelude::*;
use vstd::utf8::{decode_utf8, encode_utf8, valid_utf8};

use crate::error::Error;
use crate::text::{
    decimal, decimal_string, decode_lossy, digit_char, digit_value, has_prefix, is_digit,
    lemma_decimal, lemma_digit_char, lemma_trim_end, lemma_trim_start, parse_u8, parse_u8_str,
    starts_with, trim, trim_str, utf8_lossy, without_plus,
};
use crate::types::{Radio, RxMode};

verus! {

/// Highest AUX port number.
pub const MAX_AUX_PORT: u8 = 9;

pub open spec fn radio_text(radio: Radio) -> Seq<char> {
    match radio {
        Radio::Radio1 => "1"@,
        Radio::Radio2 => "2"@,
    }
}

pub open spec fn mode_suffix(mode: RxMode) -> Seq<char> {
    match mode {
        RxMode::Mono => ""@,
        RxMode::Stereo => "S"@,
        RxMode::ReverseStereo => "R"@,
    }
}

/// `TX1\r` or `TX2\r`.
pub open spec fn tx_text(radio: Radio) -> Seq<char> {
    "TX"@ + radio_text(radio) + "\r"@
}

/// `RX{radio}{suffix}\r`.
pub open spec fn rx_text(radio: Radio, mode: RxMode) -> Seq<char> {
    "RX"@ + radio_text(radio) + mode_suffix(mode) + "\r"@
}

/// `AUX{port}{value}\r`, both numbers in decimal without padding.
pub open spec fn aux_text(port: u8, value: u8) -> Seq<char> {
    "AUX"@ + decimal(port as nat) + decimal(value as nat) + "\r"@
}

pub open spec fn query_name_text() -> Seq<char> {
    "?NAME\r"@
}

/// `?AUX{port}\r`.
pub open spec fn query_aux_text(port: u8) -> Seq<char> {
    "?AUX"@ + decimal(port as nat) + "\r"@
}

pub open spec fn raw_text(cmd: Seq<char>) -> Seq<char> {
    cmd + "\r"@
}

pub open spec fn invalid_port_message(port: u8) -> Seq<char> {
    "AUX port must be 0-9, got "@ + decimal(port as nat)
}

/// The device name in a `?NAME` reply: the line trimmed, then, where it starts
/// with `NAME`, the rest trimmed again. CR and LF are whitespace, so trimming
/// also removes the line terminator.
pub open spec fn name_of_reply(s: Seq<char>) -> Seq<char> {
    let t = trim(s);
    if starts_with(t, "NAME"@) {
        trim(t.skip(4))
    } else {
        t
    }
}

/// The trimmed reply without its `AUX` prefix.
pub open spec fn aux_body(s: Seq<char>) -> Seq<char> {
    trim(s).skip(3)
}

/// `(port, value)` of a well-formed `?AUX` reply: the trimmed line is `AUX`,
/// one digit for the port, then the value as `u8::from_str` reads it.
pub open spec fn aux_of_reply(s: Seq<char>) -> Option<(u8, u8)> {
    let body = aux_body(s);
    if !starts_with(trim(s), "AUX"@) || body.len() == 0 || !is_digit(body[0]) {
        None
    } else {
        match parse_u8(body.skip(1)) {
            Some(value) => Some((digit_value(body[0]) as u8, value)),
            None => None,
        }
    }
}

/// The message of the `Protocol` error for a reply that `aux_of_reply` rejects.
pub open spec fn aux_reply_problem(s: Seq<char>) -> Seq<char> {
    let body = aux_body(s);
    if !starts_with(trim(s), "AUX"@) {
        "expected AUX prefix, got: "@ + trim(s)
    } else if body.len() == 0 {
        "AUX response missing port and value"@
    } else if !is_digit(body[0]) {
        "invalid AUX port digit: "@ + body.take(1)
    } else {
        "invalid AUX value: "@ + body.skip(1)
    }
}

/// The bytes of `text` on the wire.
fn to_wire(text: &str) -> (r: Vec<u8>)
    ensures
        r@ == encode_utf8(text@),
{
    text.as_bytes_vec()
}

/// Encode a TX selection command (`TX1\r` or `TX2\r`).
pub fn encode_tx(radio: Radio) -> (r: Vec<u8>)
    ensures
        r@ == encode_utf8(tx_text(radio)),
{
    let mut t = String::from_str("TX");
    match radio {
        Radio::Radio1 => t.append("1"),
        Radio::Radio2 => t.append("2"),
    }
    t.append("\r");
    to_wire(t.as_str())
}

/// Encode an RX audio routing command: `RX1\r`, `RX2\r`, `RX1S\r`, `RX2S\r`,
/// `RX1R\r` or `RX2R\r`.
pub fn encode_rx(radio: Radio, mode: RxMode) -> (r: Vec<u8>)
    ensures
        r@ == encode_utf8(rx_text(radio, mode)),
{
    let mut t = String::from_str("RX");
    match radio {
        Radio::Radio1 => t.append("1"),
        Radio::Radio2 => t.append("2"),
    }
    match mode {
        RxMode::Mono => t.append(""),
        RxMode::Stereo => t.append("S"),
        RxMode::ReverseStereo => t.append("R"),
    }
    t.append("\r");
    to_wire(t.as_str())
}

fn invalid_port(port: u8) -> (e: Error)
    ensures
        e matches Error::InvalidParameter(m) && m@ == invalid_port_message(port),
{
    let mut m = String::from_str("AUX port must be 0-9, got ");
    m.append(decimal_string(port).as_str());
    Error::InvalidParameter(m)
}

/// Encode an AUX output command (`AUX{port}{value}\r`); ports above 9 are
/// rejected before any byte is produced.
pub fn encode_aux(port: u8, value: u8) -> (r: Result<Vec<u8>, Error>)
    ensures
        port <= MAX_AUX_PORT ==> (r matches Ok(b) && b@ == encode_utf8(aux_text(port, value))),
        port > MAX_AUX_PORT ==> (r matches Err(Error::InvalidParameter(m)) && m@
            == invalid_port_message(port)),
{
    if port > MAX_AUX_PORT {
        return Err(invalid_port(port));
    }
    let mut t = String::from_str("AUX");
    t.append(decimal_string(port).as_str());
    t.append(decimal_string(value).as_str());
    t.append("\r");
    Ok(to_wire(t.as_str()))
}

/// Encode the `?NAME` query.
pub fn encode_query_name() -> (r: Vec<u8>)
    ensures
        r@ == encode_utf8(query_name_text()),
{
    to_wire("?NAME\r")
}

/// Encode a `?AUX{port}` query; ports above 9 are rejected.
pub fn encode_query_aux(port: u8) -> (r: Result<Vec<u8>, Error>)
    ensures
        port <= MAX_AUX_PORT ==> (r matches Ok(b) && b@ == encode_utf8(query_aux_text(port))),
        port > MAX_AUX_PORT ==> (r matches Err(Error::InvalidParameter(m)) && m@
            == invalid_port_message(port)),
{
    if port > MAX_AUX_PORT {
        return Err(invalid_port(port));
    }
    let mut t = String::from_str("?AUX");
    t.append(decimal_string(port).as_str());
    t.append("\r");
    Ok(to_wire(t.as_str()))
}

/// Encode a raw command: the text as given, with a carriage return appended.
pub fn encode_raw(cmd: &str) -> (r: Vec<u8>)
    ensures
        r@ == encode_utf8(raw_text(cmd@)),
{
    let mut t = String::from_str(cmd);
    t.append("\r");
    to_wire(t.as_str())
}

/// The device name in a `?NAME` reply line.
pub fn parse_name_text(s: &str) -> (r: String)
    ensures
        r@ == name_of_reply(s@),
{
    let t = trim_str(s);
    if has_prefix(t, "NAME") {
        proof {
            reveal_strlit("NAME");
        }
        let rest = t.substring_char(4, t.unicode_len());
        assert(rest@ == t@.skip(4));
        String::from_str(trim_str(rest))
    } else {
        String::from_str(t)
    }
}

/// Parse a `?NAME` reply: the bytes are decoded as UTF-8 (invalid sequences
/// replaced), then the name is taken as `parse_name_text` does.
pub fn parse_name_response(bytes: &[u8]) -> (r: String)
    ensures
        r@ == name_of_reply(utf8_lossy(bytes@)),
        valid_utf8(bytes@) ==> r@ == name_of_reply(decode_utf8(bytes@)),
{
    let s = decode_lossy(bytes);
    parse_name_text(s.as_str())
}

fn protocol_error(prefix: &str, detail: &str) -> (e: Error)
    ensures
        e matches Error::Protocol(m) && m@ == prefix@ + detail@,
{
    let mut m = String::from_str(prefix);
    m.append(detail);
    Error::Protocol(m)
}

/// Parse a `?AUX` reply line into `(port, value)`.
pub fn parse_aux_text(s: &str) -> (r: Result<(u8, u8), Error>)
    ensures
        r matches Ok(pv) ==> aux_of_reply(s@) == Some(pv),
        r is Err ==> aux_of_reply(s@) is None,
        aux_of_reply(s@) is None ==> (r matches Err(Error::Protocol(m)) && m@
            == aux_reply_problem(s@)),
        aux_of_reply(s@) matches Some(pv) ==> r == Ok::<(u8, u8), Error>(pv),
{
    proof {
        reveal_strlit("AUX");
    }
    let t = trim_str(s);
    if !has_prefix(t, "AUX") {
        return Err(protocol_error("expected AUX prefix, got: ", t));
    }
    let body = t.substring_char(3, t.unicode_len());
    assert(body@ == aux_body(s@));
    if body.unicode_len() == 0 {
        return Err(Error::Protocol(String::from_str("AUX response missing port and value")));
    }
    let c = body.get_char(0);
    if !('0' <= c && c <= '9') {
        return Err(protocol_error("invalid AUX port digit: ", body.substring_char(0, 1)));
    }
    let port = (c as u32 - '0' as u32) as u8;
    let rest = body.substring_char(1, body.unicode_len());
    match parse_u8_str(rest) {
        Some(value) => Ok((port, value)),
        None => Err(protocol_error("invalid AUX value: ", rest)),
    }
}

/// Parse a `?AUX` reply: the bytes are decoded as UTF-8 (invalid sequences
/// replaced), then read as `parse_aux_text` does.
pub fn parse_aux_response(bytes: &[u8]) -> (r: Result<(u8, u8), Error>)
    ensures
        r matches Ok(pv) ==> aux_of_reply(utf8_lossy(bytes@)) == Some(pv),
        r is Err ==> aux_of_reply(utf8_lossy(bytes@)) is None,
        aux_of_reply(utf8_lossy(bytes@)) is None ==> (r matches Err(Error::Protocol(m)) && m@
            == aux_reply_problem(utf8_lossy(bytes@))),
        valid_utf8(bytes@) ==> (r is Ok <==> aux_of_reply(decode_utf8(bytes@)) is Some),
        valid_utf8(bytes@) ==> (r matches Ok(pv) ==> aux_of_reply(decode_utf8(bytes@)) == Some(
            pv,
        )),
{
    let s = decode_lossy(bytes);
    parse_aux_text(s.as_str())
}

/// Reading back the wire form of an AUX command gives the port and value it
/// was made from, so encoding those again yields the identical bytes.
pub proof fn lemma_aux_round_trip(port: u8, value: u8)
    requires
        port <= MAX_AUX_PORT,
    ensures
        valid_utf8(encode_utf8(aux_text(port, value))),
        aux_of_reply(decode_utf8(encode_utf8(aux_text(port, value)))) == Some((port, value)),
{
    let t = aux_text(port, value);
    vstd::utf8::encode_utf8_valid_utf8(t);
    vstd::utf8::encode_utf8_decode_utf8(t);
    reveal_strlit("AUX");
    reveal_strlit("\r");
    lemma_decimal(port as nat);
    lemma_decimal(value as nat);
    lemma_digit_char(port as nat);
    let dv = decimal(value as nat);
    assert(is_digit(dv[dv.len() - 1]));
    assert(t[0] == 'A');
    assert(t[t.len() - 1] == '\r');
    assert(t[t.len() - 2] == dv[dv.len() - 1]);
    lemma_trim_start(t, 0);
    assert(t.skip(0) =~= t);
    lemma_trim_end(t, t.len() - 1);
    let line = "AUX"@ + decimal(port as nat) + dv;
    assert(trim(t) =~= line);
    assert(decimal(port as nat) =~= seq![digit_char(port as nat)]);
    let body = aux_body(t);
    assert(body =~= seq![digit_char(port as nat)] + dv);
    assert(line.take(3) =~= "AUX"@);
    assert(body.skip(1) =~= dv);
    assert(is_digit(dv[0]));
    assert(without_plus(dv) == dv);
}

} // verus!

//! Configuration of a connection, and what its startup decides.
use vstd::prelude::*;
use vstd::utf8::encode_utf8;

use crate::error::Error;
use crate::link::{fresh_link, next_link, LinkEvent, LinkState};
use crate::protocol::{encode_query_name, name_of_reply, parse_name_text, query_name_text};
use crate::switch::{SwitchCapabilities, SwitchInfo};

verus! {

/// Builder for an OTRSP device connection.
pub struct OtrspBuilder {
    /// Path of the serial port.
    pub port_path: String,
    /// Whether to ask the device for its name before the link starts.
    pub query_name: bool,
}

/// How the startup name query went.
pub enum NameReply {
    /// The query was not made.
    NotAsked,
    /// A reply line arrived.
    Line(String),
    /// Reading the reply failed.
    Failed,
    /// No reply arrived before the deadline.
    TimedOut,
}

pub open spec fn unknown_name() -> Seq<char> {
    "Unknown"@
}

impl OtrspBuilder {
    /// A builder for the given serial port path; the name query is enabled.
    pub fn new(port: &str) -> (r: Self)
        ensures
            r.port_path@ == port@,
            r.query_name,
    {
        OtrspBuilder { port_path: String::from_str(port), query_name: true }
    }

    /// Whether to query the device name during the build (default: true).
    pub fn query_name(self, enabled: bool) -> (r: Self)
        ensures
            r.port_path == self.port_path,
            r.query_name == enabled,
    {
        OtrspBuilder { port_path: self.port_path, query_name: enabled }
    }

    /// The bytes to write before the link task starts: the name query, when
    /// it is enabled.
    pub fn startup_query(&self) -> (r: Option<Vec<u8>>)
        ensures
            self.query_name <==> r is Some,
            r matches Some(b) ==> b@ == encode_utf8(query_name_text()),
    {
        if self.query_name {
            Some(encode_query_name())
        } else {
            None
        }
    }

    /// The info of the connected device, named `name`.
    pub fn device_info(self, name: String) -> (r: SwitchInfo)
        ensures
            r.name == name,
            r.port matches Some(p) && p == self.port_path,
    {
        SwitchInfo { name, port: Some(self.port_path) }
    }
}

/// The device name after the startup query: the name in its reply, or
/// `Unknown` when there was no reply to read.
pub fn startup_name(reply: NameReply) -> (r: String)
    ensures
        reply matches NameReply::Line(l) ==> r@ == name_of_reply(l@),
        !(reply is Line) ==> r@ == unknown_name(),
{
    match reply {
        NameReply::Line(l) => parse_name_text(l.as_str()),
        _ => String::from_str("Unknown"),
    }
}

/// The state the link task starts in: when the startup query timed out, its
/// reply may still arrive, so the first query drains stale bytes.
pub fn startup_link(reply: &NameReply) -> (r: LinkState)
    ensures
        reply is TimedOut ==> r == next_link(fresh_link(), LinkEvent::ReadTimedOut),
        !(reply is TimedOut) ==> r == fresh_link(),
{
    let mut link = LinkState::new();
    if let NameReply::TimedOut = reply {
        link.step(LinkEvent::ReadTimedOut);
    }
    link
}

/// The error when the startup name query could not be written.
pub fn startup_write_error(detail: &str) -> (e: Error)
    ensures
        e matches Error::Transport(m) && m@ == "failed to send ?NAME: "@ + detail@,
{
    let mut m = String::from_str("failed to send ?NAME: ");
    m.append(detail);
    Error::Transport(m)
}

/// What an OTRSP switch offers: both stereo modes and two AUX ports.
pub fn otrsp_capabilities() -> (r: SwitchCapabilities)
    ensures
        r.stereo,
        r.reverse_stereo,
        r.aux_ports == 2,
{
    SwitchCapabilities { stereo: true, reverse_stereo: true, aux_ports: 2 }
}

} // verus!

//! What a decoding failure or a policy warning is recorded as: the
//! identifier, severity and message of the violation, and its example.

use super::udp::error::{UdpError, UdpErrorView};
use super::udp::parser::{UdpPacket, UdpPacketView};
use crate::address::{ip_text, IpAddress};
use crate::protocols::artnet::error::ArtNetError;
use crate::protocols::sacn::error::SacnError;
use crate::text::{decimal, hex_fixed, push_decimal, push_hex_fixed, trim, trimmed};
use crate::time_text::{rfc3339_of, ts_to_rfc3339};
use vstd::prelude::*;
use vstd::string::*;

verus! {

/// How a violation is recorded.
pub struct Note {
    pub protocol: &'static str,
    pub id: &'static str,
    pub severity: &'static str,
    pub message: &'static str,
    /// What was found, for the example.
    pub detail: String,
}

/// The view of `Note`: its texts as characters, its lists as sequences.
pub struct NoteView {
    pub protocol: Seq<char>,
    pub id: Seq<char>,
    pub severity: Seq<char>,
    pub message: Seq<char>,
    pub detail: Seq<char>,
}

impl View for Note {
    type V = NoteView;

    open spec fn view(&self) -> NoteView {
        NoteView {
            protocol: self.protocol@,
            id: self.id@,
            severity: self.severity@,
            message: self.message@,
            detail: self.detail@,
        }
    }
}

/// `needed=<n>, actual=<m>`
pub open spec fn lengths_detail(needed: usize, actual: usize) -> Seq<char> {
    "needed="@ + decimal(needed as nat) + ", actual="@ + decimal(actual as nat)
}

/// `<label><n>` with `n` in decimal.
pub open spec fn decimal_detail(label: Seq<char>, value: nat) -> Seq<char> {
    label + decimal(value)
}

/// `<label>0x<n>` with `n` in `width` hexadecimal digits.
pub open spec fn hex_detail(label: Seq<char>, value: nat, width: nat) -> Seq<char> {
    label + "0x"@ + hex_fixed(value, width)
}

/// The warning for an ArtDMX frame that uses neither port 6454.
pub open spec fn artnet_port_note() -> NoteView {
    NoteView {
        protocol: "artnet"@,
        id: "LS-ARTNET-PORT"@,
        severity: "warning"@,
        message: "Non-standard Art-Net port; packet accepted"@,
        detail: ""@,
    }
}

/// The warning for an sACN frame that uses neither port 5568.
pub open spec fn sacn_port_note() -> NoteView {
    NoteView {
        protocol: "sacn"@,
        id: "LS-SACN-PORT"@,
        severity: "warning"@,
        message: "Non-standard sACN port; packet accepted"@,
        detail: ""@,
    }
}

/// The violation that an Art-Net decoding error is recorded as.
pub open spec fn artnet_note(e: ArtNetError) -> NoteView {
    match e {
        ArtNetError::InvalidUniverseId { value } => NoteView {
            protocol: "artnet"@,
            id: "LS-ARTNET-UNIVERSE-ID"@,
            severity: "error"@,
            message: "Invalid Art-Net universe id; packet ignored"@,
            detail: decimal_detail("value="@, value as nat),
        },
        ArtNetError::InvalidLength { length } => NoteView {
            protocol: "artnet"@,
            id: "LS-ARTNET-LENGTH"@,
            severity: "error"@,
            message: "Invalid ArtDMX length; packet ignored"@,
            detail: decimal_detail("length="@, length as nat),
        },
        ArtNetError::InvalidDmxLength { len } => NoteView {
            protocol: "artnet"@,
            id: "LS-ARTNET-LENGTH"@,
            severity: "error"@,
            message: "Invalid ArtDMX length; packet ignored"@,
            detail: decimal_detail("length="@, len as nat),
        },
        ArtNetError::TooShort { needed, actual } => NoteView {
            protocol: "artnet"@,
            id: "LS-ARTNET-TOO-SHORT"@,
            severity: "error"@,
            message: "Invalid Art-Net payload length; packet ignored"@,
            detail: lengths_detail(needed, actual),
        },
        ArtNetError::UnsupportedOpCode { opcode } => NoteView {
            protocol: "artnet"@,
            id: "LS-ARTNET-OPCODE"@,
            severity: "error"@,
            message: "Unsupported Art-Net opcode; packet ignored"@,
            detail: hex_detail("opcode="@, opcode as nat, 4),
        },
    }
}

/// The violation that an sACN decoding error is recorded as.
pub open spec fn sacn_note(e: SacnError) -> NoteView {
    match e {
        SacnError::InvalidStartCode { value } => NoteView {
            protocol: "sacn"@,
            id: "LS-SACN-START-CODE"@,
            severity: "error"@,
            message: "Invalid sACN start code; packet ignored"@,
            detail: decimal_detail("value="@, value as nat),
        },
        SacnError::InvalidPropertyValueCount { count } => NoteView {
            protocol: "sacn"@,
            id: "LS-SACN-PROPERTY-COUNT"@,
            severity: "error"@,
            message: "Invalid sACN property value count; packet ignored"@,
            detail: decimal_detail("count="@, count as nat),
        },
        SacnError::InvalidDmxLength { length } => NoteView {
            protocol: "sacn"@,
            id: "LS-SACN-DMX-LENGTH"@,
            severity: "error"@,
            message: "Invalid sACN DMX data length; packet ignored"@,
            detail: decimal_detail("length="@, length as nat),
        },
        SacnError::TooShort { needed, actual } => NoteView {
            protocol: "sacn"@,
            id: "LS-SACN-TOO-SHORT"@,
            severity: "error"@,
            message: "Invalid sACN payload length; packet ignored"@,
            detail: lengths_detail(needed, actual),
        },
        SacnError::InvalidAcnPid => NoteView {
            protocol: "sacn"@,
            id: "LS-SACN-ACN-PID"@,
            severity: "error"@,
            message: "Invalid sACN ACN PID; packet ignored"@,
            detail: "acn_pid=invalid"@,
        },
        SacnError::InvalidRootVector { value } => NoteView {
            protocol: "sacn"@,
            id: "LS-SACN-ROOT-VECTOR"@,
            severity: "error"@,
            message: "Invalid sACN root vector; packet ignored"@,
            detail: hex_detail("value="@, value as nat, 8),
        },
        SacnError::InvalidFramingVector { value } => NoteView {
            protocol: "sacn"@,
            id: "LS-SACN-FRAMING-VECTOR"@,
            severity: "error"@,
            message: "Invalid sACN framing vector; packet ignored"@,
            detail: hex_detail("value="@, value as nat, 8),
        },
        SacnError::InvalidDmpVector { value } => NoteView {
            protocol: "sacn"@,
            id: "LS-SACN-DMP-VECTOR"@,
            severity: "error"@,
            message: "Invalid sACN DMP vector; packet ignored"@,
            detail: hex_detail("value="@, value as nat, 2),
        },
    }
}

/// The violation that a UDP decoding error is recorded as. Its detail is
/// the whole example: the source of such a frame is not known.
pub open spec fn udp_note(e: UdpErrorView) -> NoteView {
    match e {
        UdpErrorView::Slice(message) => NoteView {
            protocol: "udp"@,
            id: "LS-UDP-SLICE"@,
            severity: "error"@,
            message: "Invalid UDP slice; packet ignored"@,
            detail: message,
        },
        UdpErrorView::MissingNetworkLayer => NoteView {
            protocol: "udp"@,
            id: "LS-UDP-MISSING-NETWORK"@,
            severity: "error"@,
            message: "Invalid UDP packet: missing network layer; packet ignored"@,
            detail: "missing network layer"@,
        },
        UdpErrorView::MissingIpPayload => NoteView {
            protocol: "udp"@,
            id: "LS-UDP-MISSING-PAYLOAD"@,
            severity: "error"@,
            message: "Invalid UDP packet: missing IP payload; packet ignored"@,
            detail: "missing IP payload"@,
        },
        UdpErrorView::TooShort { needed, actual } => NoteView {
            protocol: "udp"@,
            id: "LS-UDP-TOO-SHORT"@,
            severity: "error"@,
            message: "Invalid UDP payload length; packet ignored"@,
            detail: lengths_detail(needed, actual),
        },
    }
}

/// `ports=<src ip>:<src port>-><dst ip>:<dst port>`
pub open spec fn ports_detail(udp: UdpPacketView) -> Seq<char> {
    "ports="@ + ip_text(udp.src_ip) + seq![':'] + decimal(udp.src_port as nat) + "->"@ + ip_text(
        udp.dst_ip,
    ) + seq![':'] + decimal(udp.dst_port as nat)
}

/// The example of a violation: `source <ip>:<port> @ <time>`, then `; ` and
/// the detail where there is one. The time is RFC 3339, or `unknown`. Where
/// the source is not known the example is the detail alone.
pub open spec fn example_text(
    detail: Seq<char>,
    source: Option<(Seq<u8>, u16)>,
    ts: Option<u64>,
) -> Seq<char> {
    let base = trim(detail);
    match source {
        None => base,
        Some(from) => {
            let head = "source "@ + ip_text(from.0) + seq![':'] + decimal(from.1 as nat) + " @ "@
                + match rfc3339_of(ts) {
                Some(text) => text,
                None => "unknown"@,
            };
            if base.len() == 0 {
                head
            } else {
                head + "; "@ + base
            }
        },
    }
}

fn lengths_text(needed: usize, actual: usize) -> (s: String)
    ensures
        s@ == lengths_detail(needed, actual),
{
    let mut s = String::from_str("needed=");
    push_decimal(&mut s, needed as u64);
    s.append(", actual=");
    push_decimal(&mut s, actual as u64);
    s
}

fn decimal_text(label: &str, value: u64) -> (s: String)
    ensures
        s@ == decimal_detail(label@, value as nat),
{
    let mut s = String::from_str(label);
    push_decimal(&mut s, value);
    s
}

fn hex_text_of(label: &str, value: u64, width: u8) -> (s: String)
    ensures
        s@ == hex_detail(label@, value as nat, width as nat),
{
    let mut s = String::from_str(label);
    s.append("0x");
    push_hex_fixed(&mut s, value, width);
    s
}

/// How an ArtDMX frame on other ports is recorded.
pub fn artnet_port_note_of() -> (n: Note)
    ensures
        n@ == artnet_port_note(),
{
    Note {
        protocol: "artnet",
        id: "LS-ARTNET-PORT",
        severity: "warning",
        message: "Non-standard Art-Net port; packet accepted",
        detail: String::from_str(""),
    }
}

/// How an sACN frame on other ports is recorded.
pub fn sacn_port_note_of() -> (n: Note)
    ensures
        n@ == sacn_port_note(),
{
    Note {
        protocol: "sacn",
        id: "LS-SACN-PORT",
        severity: "warning",
        message: "Non-standard sACN port; packet accepted",
        detail: String::from_str(""),
    }
}

/// How an Art-Net decoding error is recorded.
pub fn artnet_note_of(e: &ArtNetError) -> (n: Note)
    ensures
        n@ == artnet_note(*e),
{
    match *e {
        ArtNetError::InvalidUniverseId { value } => Note {
            protocol: "artnet",
            id: "LS-ARTNET-UNIVERSE-ID",
            severity: "error",
            message: "Invalid Art-Net universe id; packet ignored",
            detail: decimal_text("value=", value as u64),
        },
        ArtNetError::InvalidLength { length } => Note {
            protocol: "artnet",
            id: "LS-ARTNET-LENGTH",
            severity: "error",
            message: "Invalid ArtDMX length; packet ignored",
            detail: decimal_text("length=", length as u64),
        },
        ArtNetError::InvalidDmxLength { len } => Note {
            protocol: "artnet",
            id: "LS-ARTNET-LENGTH",
            severity: "error",
            message: "Invalid ArtDMX length; packet ignored",
            detail: decimal_text("length=", len as u64),
        },
        ArtNetError::TooShort { needed, actual } => Note {
            protocol: "artnet",
            id: "LS-ARTNET-TOO-SHORT",
            severity: "error",
            message: "Invalid Art-Net payload length; packet ignored",
            detail: lengths_text(needed, actual),
        },
        ArtNetError::UnsupportedOpCode { opcode } => Note {
            protocol: "artnet",
            id: "LS-ARTNET-OPCODE",
            severity: "error",
            message: "Unsupported Art-Net opcode; packet ignored",
            detail: hex_text_of("opcode=", opcode as u64, 4),
        },
    }
}

/// How an sACN decoding error is recorded.
pub fn sacn_note_of(e: &SacnError) -> (n: Note)
    ensures
        n@ == sacn_note(*e),
{
    match *e {
        SacnError::InvalidStartCode { value } => Note {
            protocol: "sacn",
            id: "LS-SACN-START-CODE",
            severity: "error",
            message: "Invalid sACN start code; packet ignored",
            detail: decimal_text("value=", value as u64),
        },
        SacnError::InvalidPropertyValueCount { count } => Note {
            protocol: "sacn",
            id: "LS-SACN-PROPERTY-COUNT",
            severity: "error",
            message: "Invalid sACN property value count; packet ignored",
            detail: decimal_text("count=", count as u64),
        },
        SacnError::InvalidDmxLength { length } => Note {
            protocol: "sacn",
            id: "LS-SACN-DMX-LENGTH",
            severity: "error",
            message: "Invalid sACN DMX data length; packet ignored",
            detail: decimal_text("length=", length as u64),
        },
        SacnError::TooShort { needed, actual } => Note {
            protocol: "sacn",
            id: "LS-SACN-TOO-SHORT",
            severity: "error",
            message: "Invalid sACN payload length; packet ignored",
            detail: lengths_text(needed, actual),
        },
        SacnError::InvalidAcnPid => Note {
            protocol: "sacn",
            id: "LS-SACN-ACN-PID",
            severity: "error",
            message: "Invalid sACN ACN PID; packet ignored",
            detail: String::from_str("acn_pid=invalid"),
        },
        SacnError::InvalidRootVector { value } => Note {
            protocol: "sacn",
            id: "LS-SACN-ROOT-VECTOR",
            severity: "error",
            message: "Invalid sACN root vector; packet ignored",
            detail: hex_text_of("value=", value as u64, 8),
        },
        SacnError::InvalidFramingVector { value } => Note {
            protocol: "sacn",
            id: "LS-SACN-FRAMING-VECTOR",
            severity: "error",
            message: "Invalid sACN framing vector; packet ignored",
            detail: hex_text_of("value=", value as u64, 8),
        },
        SacnError::InvalidDmpVector { value } => Note {
            protocol: "sacn",
            id: "LS-SACN-DMP-VECTOR",
            severity: "error",
            message: "Invalid sACN DMP vector; packet ignored",
            detail: hex_text_of("value=", value as u64, 2),
        },
    }
}

/// How a UDP decoding error is recorded.
pub fn udp_note_of(e: &UdpError) -> (n: Note)
    ensures
        n@ == udp_note(e@),
{
    match e {
        UdpError::Slice(message) => Note {
            protocol: "udp",
            id: "LS-UDP-SLICE",
            severity: "error",
            message: "Invalid UDP slice; packet ignored",
            detail: message.clone(),
        },
        UdpError::MissingNetworkLayer => Note {
            protocol: "udp",
            id: "LS-UDP-MISSING-NETWORK",
            severity: "error",
            message: "Invalid UDP packet: missing network layer; packet ignored",
            detail: String::from_str("missing network layer"),
        },
        UdpError::MissingIpPayload => Note {
            protocol: "udp",
            id: "LS-UDP-MISSING-PAYLOAD",
            severity: "error",
            message: "Invalid UDP packet: missing IP payload; packet ignored",
            detail: String::from_str("missing IP payload"),
        },
        UdpError::TooShort { needed, actual } => Note {
            protocol: "udp",
            id: "LS-UDP-TOO-SHORT",
            severity: "error",
            message: "Invalid UDP payload length; packet ignored",
            detail: lengths_text(*needed, *actual),
        },
    }
}

/// The ports of a datagram, for the example of a port warning.
pub fn ports_text(udp: &UdpPacket<'_>) -> (s: String)
    ensures
        s@ == ports_detail(udp@),
{
    let mut s = String::from_str("ports=");
    udp.src_ip.push_text(&mut s);
    s.push(':');
    push_decimal(&mut s, udp.src_port as u64);
    s.append("->");
    udp.dst_ip.push_text(&mut s);
    s.push(':');
    push_decimal(&mut s, udp.dst_port as u64);
    s
}

/// The address and port of an optional source.
pub open spec fn source_view(source: Option<(&IpAddress, u16)>) -> Option<(Seq<u8>, u16)> {
    match source {
        Some(from) => Some((from.0@, from.1)),
        None => None,
    }
}

/// Writes the example of a violation.
pub fn format_violation_example(base: String, source: Option<(&IpAddress, u16)>, ts: Option<u64>) -> (s: String)
    ensures
        s@ == example_text(base@, source_view(source), ts),
{
    let base = trimmed(base.as_str());
    let (ip, port) = match source {
        Some(from) => from,
        None => { return base; },
    };
    let mut s = String::from_str("source ");
    ip.push_text(&mut s);
    s.push(':');
    push_decimal(&mut s, port as u64);
    s.append(" @ ");
    match ts_to_rfc3339(ts) {
        Some(text) => { s.append(text.as_str()); },
        None => { s.append("unknown"); },
    }
    if base.as_str().unicode_len() > 0 {
        s.append("; ");
        s.append(base.as_str());
    }
    s
}

/// Writes the example of a violation whose source is `source`.
pub fn example_of(detail: String, source: Option<(&IpAddress, u16)>, ts: Option<u64>) -> (s: String)
    ensures
        s@ == example_text(detail@, source_view(source), ts),
{
    format_violation_example(detail, source, ts)
}

} // verus!

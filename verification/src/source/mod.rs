//! Packet events: what a capture hands to the analysis, one packet at a time.

pub mod pcap;

use pcap::error::{PcapSourceError, PcapSourceErrorView};
use vstd::prelude::*;
use vstd::string::*;

verus! {

/// The link layer of a captured frame.
#[derive(Debug, Clone, Copy, PartialEq, Eq, Structural)]
pub enum LinkType {
    /// Ethernet II frames.
    Ethernet,
    /// Raw IP packets, no link header.
    Raw,
    /// Any other link layer; such frames are not decoded.
    Other,
}

/// The latest instant that a report can name: the end of the year 9999, in
/// microseconds since the Unix epoch.
pub const MAX_TIMESTAMP_US: u64 = 253_402_300_799_999_999;

/// One captured packet.
#[derive(Debug, Clone)]
pub struct PacketEvent {
    /// Capture time in microseconds since the Unix epoch, where known.
    pub ts: Option<u64>,
    /// Link layer of `data`.
    pub linktype: LinkType,
    /// The frame as captured.
    pub data: Vec<u8>,
}

/// The view of `PacketEvent`: its texts as characters, its lists as sequences.
pub struct PacketEventView {
    pub ts: Option<u64>,
    pub linktype: LinkType,
    pub data: Seq<u8>,
}

impl View for PacketEvent {
    type V = PacketEventView;

    open spec fn view(&self) -> PacketEventView {
        PacketEventView { ts: self.ts, linktype: self.linktype, data: self.data@ }
    }
}

/// Failures of a source of packets.
#[derive(Debug, Clone)]
pub enum SourceError {
    /// The capture could not be read; holds the words of the system.
    Io(String),
    /// The capture is not well-formed; holds what was being done and what
    /// went wrong.
    Pcap(String),
}

/// The view of `SourceError`: its texts as characters, its lists as sequences.
pub enum SourceErrorView {
    Io(Seq<char>),
    Pcap(Seq<char>),
}

impl View for SourceError {
    type V = SourceErrorView;

    open spec fn view(&self) -> SourceErrorView {
        match self {
            SourceError::Io(m) => SourceErrorView::Io(m@),
            SourceError::Pcap(m) => SourceErrorView::Pcap(m@),
        }
    }
}

impl SourceErrorView {
    /// The text of the error.
    pub open spec fn message(self) -> Seq<char> {
        match self {
            SourceErrorView::Io(m) => "I/O error: "@ + m,
            SourceErrorView::Pcap(m) => "PCAP parse error: "@ + m,
        }
    }
}

/// The failure of a source that reads a capture file: a parse error keeps
/// its context in front of its message.
pub open spec fn source_error_of(e: PcapSourceErrorView) -> SourceErrorView {
    match e {
        PcapSourceErrorView::Io(m) => SourceErrorView::Io(m),
        PcapSourceErrorView::Pcap { context, message } => SourceErrorView::Pcap(
            context + ": "@ + message,
        ),
    }
}

impl SourceError {
    /// Writes the text of the error.
    pub fn to_string(&self) -> (s: String)
        ensures
            s@ == self@.message(),
    {
        match self {
            SourceError::Io(m) => {
                let mut s = String::from_str("I/O error: ");
                s.append(m.as_str());
                s
            },
            SourceError::Pcap(m) => {
                let mut s = String::from_str("PCAP parse error: ");
                s.append(m.as_str());
                s
            },
        }
    }

    /// The failure of a source that reads a capture file.
    pub fn from_pcap(value: PcapSourceError) -> (r: SourceError)
        ensures
            r@ == source_error_of(value@),
    {
        match value {
            PcapSourceError::Io(m) => SourceError::Io(m),
            PcapSourceError::Pcap { context, message } => {
                let mut s = String::from_str(context);
                s.append(": ");
                s.append(message.as_str());
                SourceError::Pcap(s)
            },
        }
    }
}

/// A capture time that the analysis uses: one after `MAX_TIMESTAMP_US`
/// counts as unknown.
pub open spec fn usable_ts(ts: Option<u64>) -> Option<u64> {
    match ts {
        Some(t) => if t <= MAX_TIMESTAMP_US {
            Some(t)
        } else {
            None
        },
        None => None,
    }
}

/// Whether a capture time is absent or within the range that can be reported.
pub open spec fn ts_in_range(ts: Option<u64>) -> bool {
    usable_ts(ts) == ts
}

/// The capture time as the analysis uses it.
pub fn clamp_ts(ts: Option<u64>) -> (r: Option<u64>)
    ensures
        r == usable_ts(ts),
        ts_in_range(r),
{
    match ts {
        Some(t) => if t <= MAX_TIMESTAMP_US {
            Some(t)
        } else {
            None
        },
        None => None,
    }
}

} // verus!

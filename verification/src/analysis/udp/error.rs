//! Failures of UDP decoding.

use crate::text::{decimal, push_decimal};
use vstd::prelude::*;
use vstd::string::*;

verus! {

/// Why a frame could not be decoded as a UDP datagram.
#[derive(Debug, Clone)]
pub enum UdpError {
    /// The frame could not be sliced into headers; holds the slicer's words.
    Slice(String),
    /// The frame carries no IP packet.
    MissingNetworkLayer,
    /// The IP packet carries no payload.
    MissingIpPayload,
    /// The IP payload ends before the UDP header does.
    TooShort { needed: usize, actual: usize },
}

/// The view of `UdpError`: its texts as characters, its lists as sequences.
pub enum UdpErrorView {
    Slice(Seq<char>),
    MissingNetworkLayer,
    MissingIpPayload,
    TooShort { needed: usize, actual: usize },
}

impl View for UdpError {
    type V = UdpErrorView;

    open spec fn view(&self) -> UdpErrorView {
        match self {
            UdpError::Slice(m) => UdpErrorView::Slice(m@),
            UdpError::MissingNetworkLayer => UdpErrorView::MissingNetworkLayer,
            UdpError::MissingIpPayload => UdpErrorView::MissingIpPayload,
            UdpError::TooShort { needed, actual } => UdpErrorView::TooShort {
                needed: *needed,
                actual: *actual,
            },
        }
    }
}

impl UdpErrorView {
    /// The text of the error.
    pub open spec fn message(self) -> Seq<char> {
        match self {
            UdpErrorView::Slice(m) => "packet slice error: "@ + m,
            UdpErrorView::MissingNetworkLayer => "missing network layer in packet"@,
            UdpErrorView::MissingIpPayload => "missing IP payload in packet"@,
            UdpErrorView::TooShort { needed, actual } => "payload too short: need "@ + decimal(
                needed as nat,
            ) + " bytes, got "@ + decimal(actual as nat),
        }
    }
}

impl UdpError {
    /// Writes the text of the error.
    pub fn to_string(&self) -> (s: String)
        ensures
            s@ == self@.message(),
    {
        match self {
            UdpError::Slice(m) => {
                let mut s = String::from_str("packet slice error: ");
                s.append(m.as_str());
                s
            },
            UdpError::MissingNetworkLayer => String::from_str("missing network layer in packet"),
            UdpError::MissingIpPayload => String::from_str("missing IP payload in packet"),
            UdpError::TooShort { needed, actual } => {
                let mut s = String::from_str("payload too short: need ");
                push_decimal(&mut s, *needed as u64);
                s.append(" bytes, got ");
                push_decimal(&mut s, *actual as u64);
                s
            },
        }
    }
}

} // verus!

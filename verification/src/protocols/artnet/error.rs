//! Failures of the Art-Net reader and decoder.

use crate::text::{decimal, push_decimal};
use vstd::prelude::*;
use vstd::string::*;

verus! {

/// Why an Art-Net payload could not be read or decoded.
#[derive(Debug, Clone, Copy, PartialEq, Eq, Structural)]
pub enum ArtNetError {
    /// The payload ends before the bytes that are needed.
    TooShort { needed: usize, actual: usize },
    /// A DMX data length that is odd or outside 2..=512, met by the reader.
    InvalidDmxLength { len: usize },
    /// An ArtDMX length field that is odd or outside 2..=512, met by the decoder.
    InvalidLength { length: u16 },
    /// A universe identifier above 0x7fff.
    InvalidUniverseId { value: u16 },
    /// An Art-Net packet with an opcode that is not decoded.
    UnsupportedOpCode { opcode: u16 },
}

impl ArtNetError {
    /// The text of the error.
    pub open spec fn message(self) -> Seq<char> {
        match self {
            ArtNetError::TooShort { needed, actual } => "payload too short: need "@ + decimal(
                needed as nat,
            ) + " bytes, got "@ + decimal(actual as nat),
            ArtNetError::InvalidDmxLength { len } => "invalid DMX length: "@ + decimal(len as nat)
                + " (expected even, 2..=512)"@,
            ArtNetError::InvalidLength { length } => "invalid ArtDMX length: "@ + decimal(
                length as nat,
            ) + " (expected even, 2..=512)"@,
            ArtNetError::InvalidUniverseId { value } => "invalid Art-Net universe id: "@ + decimal(
                value as nat,
            ),
            ArtNetError::UnsupportedOpCode { opcode } => "unsupported Art-Net opcode: "@ + decimal(
                opcode as nat,
            ),
        }
    }

    /// Writes the text of the error.
    pub fn to_string(&self) -> (s: String)
        ensures
            s@ == self.message(),
    {
        match *self {
            ArtNetError::TooShort { needed, actual } => {
                let mut s = String::from_str("payload too short: need ");
                push_decimal(&mut s, needed as u64);
                s.append(" bytes, got ");
                push_decimal(&mut s, actual as u64);
                s
            },
            ArtNetError::InvalidDmxLength { len } => {
                let mut s = String::from_str("invalid DMX length: ");
                push_decimal(&mut s, len as u64);
                s.append(" (expected even, 2..=512)");
                s
            },
            ArtNetError::InvalidLength { length } => {
                let mut s = String::from_str("invalid ArtDMX length: ");
                push_decimal(&mut s, length as u64);
                s.append(" (expected even, 2..=512)");
                s
            },
            ArtNetError::InvalidUniverseId { value } => {
                let mut s = String::from_str("invalid Art-Net universe id: ");
                push_decimal(&mut s, value as u64);
                s
            },
            ArtNetError::UnsupportedOpCode { opcode } => {
                let mut s = String::from_str("unsupported Art-Net opcode: ");
                push_decimal(&mut s, opcode as u64);
                s
            },
        }
    }
}

} // verus!

//! Failures of the sACN reader and decoder.

use crate::text::{decimal, push_decimal};
use vstd::prelude::*;
use vstd::string::*;

verus! {

/// Why an sACN payload could not be read or decoded.
#[derive(Debug, Clone, Copy, PartialEq, Eq, Structural)]
pub enum SacnError {
    /// The payload ends before the bytes that are needed.
    TooShort { needed: usize, actual: usize },
    /// A start code other than the DMX null start code.
    InvalidStartCode { value: u8 },
    /// A property value count outside 2..=513.
    InvalidPropertyValueCount { count: u16 },
    /// A DMX data length that cannot be addressed.
    InvalidDmxLength { length: u16 },
    /// The ACN packet identifier is not the one of E1.17.
    InvalidAcnPid,
    /// The root layer vector is not the data vector.
    InvalidRootVector { value: u32 },
    /// The framing layer vector is not the DMX data vector.
    InvalidFramingVector { value: u32 },
    /// The DMP layer vector is not "set property".
    InvalidDmpVector { value: u8 },
}

impl SacnError {
    /// The text of the error.
    pub open spec fn message(self) -> Seq<char> {
        match self {
            SacnError::TooShort { needed, actual } => "payload too short: need "@ + decimal(
                needed as nat,
            ) + " bytes, got "@ + decimal(actual as nat),
            SacnError::InvalidStartCode { value } => "invalid start code: "@ + decimal(
                value as nat,
            ),
            SacnError::InvalidPropertyValueCount { count } => "invalid property value count: "@
                + decimal(count as nat),
            SacnError::InvalidDmxLength { length } => "invalid DMX data length: "@ + decimal(
                length as nat,
            ),
            SacnError::InvalidAcnPid => "invalid ACN PID"@,
            SacnError::InvalidRootVector { value } => "invalid root vector: "@ + decimal(
                value as nat,
            ),
            SacnError::InvalidFramingVector { value } => "invalid framing vector: "@ + decimal(
                value as nat,
            ),
            SacnError::InvalidDmpVector { value } => "invalid DMP vector: "@ + decimal(
                value as nat,
            ),
        }
    }

    /// Writes the text of the error.
    pub fn to_string(&self) -> (s: String)
        ensures
            s@ == self.message(),
    {
        match *self {
            SacnError::TooShort { needed, actual } => {
                let mut s = String::from_str("payload too short: need ");
                push_decimal(&mut s, needed as u64);
                s.append(" bytes, got ");
                push_decimal(&mut s, actual as u64);
                s
            },
            SacnError::InvalidStartCode { value } => {
                let mut s = String::from_str("invalid start code: ");
                push_decimal(&mut s, value as u64);
                s
            },
            SacnError::InvalidPropertyValueCount { count } => {
                let mut s = String::from_str("invalid property value count: ");
                push_decimal(&mut s, count as u64);
                s
            },
            SacnError::InvalidDmxLength { length } => {
                let mut s = String::from_str("invalid DMX data length: ");
                push_decimal(&mut s, length as u64);
                s
            },
            SacnError::InvalidAcnPid => String::from_str("invalid ACN PID"),
            SacnError::InvalidRootVector { value } => {
                let mut s = String::from_str("invalid root vector: ");
                push_decimal(&mut s, value as u64);
                s
            },
            SacnError::InvalidFramingVector { value } => {
                let mut s = String::from_str("invalid framing vector: ");
                push_decimal(&mut s, value as u64);
                s
            },
            SacnError::InvalidDmpVector { value } => {
                let mut s = String::from_str("invalid DMP vector: ");
                push_decimal(&mut s, value as u64);
                s
            },
        }
    }
}

} // verus!

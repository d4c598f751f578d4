//! E1.31 data packet wire layout. Multi-byte fields are big-endian.

use vstd::prelude::*;

verus! {

/// Preamble size.
pub const PREAMBLE_SIZE_RANGE: std::ops::Range<usize> = 0..2;

/// Postamble size.
pub const POSTAMBLE_SIZE_RANGE: std::ops::Range<usize> = 2..4;

/// ACN packet identifier.
pub const ACN_PID_RANGE: std::ops::Range<usize> = 4..16;

/// Vector of the root layer.
pub const ROOT_VECTOR_RANGE: std::ops::Range<usize> = 18..22;

/// Component identifier of the sender.
pub const CID_RANGE: std::ops::Range<usize> = 22..38;

/// Vector of the framing layer.
pub const FRAMING_VECTOR_RANGE: std::ops::Range<usize> = 40..44;

/// Source name, padded with NUL.
pub const SOURCE_NAME_RANGE: std::ops::Range<usize> = 44..108;

/// Sequence number; zero where frames are not numbered.
pub const SEQUENCE_OFFSET: usize = 111;

/// Universe.
pub const UNIVERSE_RANGE: std::ops::Range<usize> = 113..115;

/// Vector of the DMP layer.
pub const DMP_VECTOR_OFFSET: usize = 117;

/// Number of property values: the start code and the slots.
pub const DMP_PROPERTY_VALUE_COUNT_RANGE: std::ops::Range<usize> = 123..125;

/// DMX start code.
pub const START_CODE_OFFSET: usize = 125;

/// Where the DMX data begins.
pub const DMX_DATA_OFFSET: usize = 126;

/// Number of slots of a DMX universe.
pub const DMX_MAX_SLOTS: usize = 512;

/// ACN packet identifier, twelve bytes: "ASC-E1.17" and three zeros.
pub const ACN_PID: [u8; 12] = [
    0x41,
    0x53,
    0x43,
    0x2d,
    0x45,
    0x31,
    0x2e,
    0x31,
    0x37,
    0x00,
    0x00,
    0x00,
];

/// The preamble size of E1.31.
pub const PREAMBLE_SIZE: u16 = 0x0010;

/// The postamble size of E1.31.
pub const POSTAMBLE_SIZE: u16 = 0x0000;

/// Root vector of a data packet.
pub const ROOT_VECTOR_DATA: u32 = 0x0000_0004;

/// Framing vector of a DMX data packet.
pub const FRAMING_VECTOR_DMX: u32 = 0x0000_0002;

/// DMP vector "set property".
pub const DMP_VECTOR_SET_PROPERTY: u8 = 0x02;

/// The null start code of DMX data.
pub const DMX_START_CODE: u8 = 0x00;

/// Bytes needed before the layer signatures can be checked.
pub const MIN_LEN: usize = 118;

} // verus!

//! ArtDMX wire layout.

use vstd::prelude::*;

verus! {

/// Packet identifier, eight bytes: "Art-Net" and a terminating zero.
pub const ARTNET_ID: [u8; 8] = [0x41, 0x72, 0x74, 0x2d, 0x4e, 0x65, 0x74, 0x00];

/// Opcode, little-endian.
pub const OP_CODE_RANGE: std::ops::Range<usize> = 8..10;

/// Sequence number; zero where frames are not numbered.
pub const SEQUENCE_OFFSET: usize = 12;

/// Universe, little-endian.
pub const UNIVERSE_RANGE: std::ops::Range<usize> = 14..16;

/// Length of the DMX data, big-endian.
pub const LENGTH_RANGE: std::ops::Range<usize> = 16..18;

/// Where the DMX data begins; also the length of the header.
pub const DMX_DATA_OFFSET: usize = 18;

/// Number of slots of a DMX universe.
pub const DMX_MAX_SLOTS: usize = 512;

/// Opcode of ArtDMX.
pub const ARTDMX_OPCODE: u16 = 0x5000;

/// The highest universe: 15 bits.
pub const MAX_UNIVERSE_ID: u16 = 0x7fff;

} // verus!

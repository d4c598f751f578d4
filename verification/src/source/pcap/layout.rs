//! File-level constants of the capture formats.

use vstd::prelude::*;

verus! {

/// Block type of a pcapng section header, the first four bytes of the file.
pub const PCAPNG_MAGIC: [u8; 4] = [0x0a, 0x0d, 0x0d, 0x0a];

/// Link type number of Ethernet.
pub const LINKTYPE_ETHERNET: i32 = 1;

/// Link type number of raw IP.
pub const LINKTYPE_RAW: i32 = 101;

} // verus!

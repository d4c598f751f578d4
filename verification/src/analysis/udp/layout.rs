//! UDP wire layout.

use vstd::prelude::*;

verus! {

/// Length of the UDP header, which precedes the payload.
pub const UDP_HEADER_LEN: usize = 8;

} // verus!

//! Decisions made while reading a capture file.

use super::layout;
use crate::source::LinkType;
use vstd::prelude::*;

verus! {

/// Whether the first four bytes of a file are those of pcapng.
pub fn is_pcapng_magic(magic: &[u8; 4]) -> (r: bool)
    ensures
        r == (magic@ == seq![0x0au8, 0x0du8, 0x0du8, 0x0au8]),
{
    let expected = layout::PCAPNG_MAGIC;
    let r = magic[0] == expected[0] && magic[1] == expected[1] && magic[2] == expected[2]
        && magic[3] == expected[3];
    proof {
        if r {
            assert(magic@ =~= seq![0x0au8, 0x0du8, 0x0du8, 0x0au8]);
        }
    }
    r
}

/// The link type of interface `if_id`; an interface that the file did not
/// describe counts as Ethernet.
pub fn linktype_for_interface(linktypes: &[LinkType], if_id: u32) -> (r: LinkType)
    ensures
        r == if (if_id as int) < linktypes@.len() {
            linktypes@[if_id as int]
        } else {
            LinkType::Ethernet
        },
{
    let i: usize = if_id as usize;
    if i < linktypes.len() {
        linktypes[i]
    } else {
        LinkType::Ethernet
    }
}

/// The link type for a link type number of a capture file.
pub fn link_type_of(number: i32) -> (r: LinkType)
    ensures
        r == if number == 1 {
            LinkType::Ethernet
        } else if number == 101 {
            LinkType::Raw
        } else {
            LinkType::Other
        },
{
    if number == layout::LINKTYPE_ETHERNET {
        LinkType::Ethernet
    } else if number == layout::LINKTYPE_RAW {
        LinkType::Raw
    } else {
        LinkType::Other
    }
}

/// The capture time of a packet of a pcap file in microseconds: `ts_sec`
/// holds the seconds, `ts_usec` the microseconds within the second.
pub fn pcap_ts_to_micros(ts_sec: u32, ts_usec: u32) -> (r: u64)
    ensures
        r == ts_sec as int * 1_000_000 + ts_usec as int,
{
    (ts_sec as u64) * 1_000_000 + (ts_usec as u64)
}

/// The pcapng timestamp of a packet as one number: `ts_high` holds the
/// upper 32 bits, `ts_low` the lower. With the default resolution the unit
/// is the microsecond.
pub fn pcapng_ts_to_micros(ts_high: u32, ts_low: u32) -> (r: u64)
    ensures
        r == ts_high as int * 0x1_0000_0000 + ts_low as int,
{
    (ts_high as u64) * 0x1_0000_0000 + (ts_low as u64)
}

} // verus!

//! The sACN DMX data packet decoder.

use super::error::SacnError;
use super::layout;
use super::reader::{
    ascii_string_of, cid_hex_of, dmx_data_len_of, optional_byte_of, start_code_of, u16_be_of,
    u32_be_of, SacnReader,
};
use crate::protocols::common::decoded_as;
use crate::text::optional_text;
use vstd::prelude::*;
use vstd::slice::slice_to_vec;

verus! {

/// A decoded sACN DMX data packet.
#[derive(Debug)]
pub struct SacnDmx {
    pub universe: u16,
    /// Component identifier, 32 lower-case hexadecimal digits.
    pub cid: String,
    pub source_name: Option<String>,
    pub sequence: Option<u8>,
    pub slots: Vec<u8>,
}

/// The view of `SacnDmx`: its texts as characters, its lists as sequences.
pub struct SacnDmxView {
    pub universe: u16,
    pub cid: Seq<char>,
    pub source_name: Option<Seq<char>>,
    pub sequence: Option<u8>,
    pub slots: Seq<u8>,
}

impl View for SacnDmx {
    type V = SacnDmxView;

    open spec fn view(&self) -> SacnDmxView {
        SacnDmxView {
            universe: self.universe,
            cid: self.cid@,
            source_name: optional_text(self.source_name),
            sequence: self.sequence,
            slots: self.slots@,
        }
    }
}

/// The twelve bytes "ASC-E1.17" and three zeros.
pub open spec fn acn_pid() -> Seq<u8> {
    seq![
        0x41u8,
        0x53u8,
        0x43u8,
        0x2du8,
        0x45u8,
        0x31u8,
        0x2eu8,
        0x31u8,
        0x37u8,
        0x00u8,
        0x00u8,
        0x00u8,
    ]
}

/// A name that is empty after trimming is no name.
pub open spec fn optional_name(text: Seq<char>) -> Option<Seq<char>> {
    if text.len() == 0 {
        None
    } else {
        Some(text)
    }
}

/// What an sACN payload decodes to.
///
/// A payload under 118 bytes is too short. One whose preamble and postamble
/// sizes are not those of E1.31 is not an sACN packet and decodes to
/// nothing. After that every mismatch is an error, in this order: the ACN
/// packet identifier, the root, framing and DMP vectors, the start code, the
/// property value count, and the length of the DMX data.
pub open spec fn sacn_of(payload: Seq<u8>) -> Result<Option<SacnDmxView>, SacnError> {
    if payload.len() < 118 {
        Err(SacnError::TooShort { needed: 118, actual: payload.len() as usize })
    } else if u16_be_of(payload, 0, 2) != Ok::<u16, SacnError>(0x0010) || u16_be_of(payload, 2, 4)
        != Ok::<u16, SacnError>(0x0000) {
        Ok(None)
    } else if payload.subrange(4, 16) != acn_pid() {
        Err(SacnError::InvalidAcnPid)
    } else if u32_be_of(payload, 18, 22)->Ok_0 != 4 {
        Err(SacnError::InvalidRootVector { value: u32_be_of(payload, 18, 22)->Ok_0 })
    } else if u32_be_of(payload, 40, 44)->Ok_0 != 2 {
        Err(SacnError::InvalidFramingVector { value: u32_be_of(payload, 40, 44)->Ok_0 })
    } else if payload[117] != 2 {
        Err(SacnError::InvalidDmpVector { value: payload[117] })
    } else if start_code_of(payload) is Err {
        Err(start_code_of(payload)->Err_0)
    } else if dmx_data_len_of(payload) is Err {
        Err(dmx_data_len_of(payload)->Err_0)
    } else {
        let data_len = dmx_data_len_of(payload)->Ok_0;
        if payload.len() < 126 + data_len {
            Err(
                SacnError::TooShort {
                    needed: (126 + data_len) as usize,
                    actual: payload.len() as usize,
                },
            )
        } else {
            Ok(
                Some(
                    SacnDmxView {
                        universe: u16_be_of(payload, 113, 115)->Ok_0,
                        cid: cid_hex_of(payload)->Ok_0,
                        source_name: optional_name(ascii_string_of(payload, 44, 108)->Ok_0),
                        sequence: optional_byte_of(payload, 111)->Ok_0,
                        slots: payload.subrange(126, 126 + data_len),
                    },
                ),
            )
        }
    }
}

fn is_acn_pid(bytes: &[u8]) -> (r: bool)
    requires
        bytes@.len() == 12,
    ensures
        r == (bytes@ == acn_pid()),
{
    let id = layout::ACN_PID;
    let mut i: usize = 0;
    while i < 12
        invariant
            i <= 12,
            bytes@.len() == 12,
            id@ == acn_pid(),
            forall|k: int| 0 <= k < i ==> bytes@[k] == acn_pid()[k],
        decreases 12 - i,
    {
        if bytes[i] != id[i] {
            return false;
        }
        i += 1;
    }
    assert(bytes@ =~= acn_pid());
    true
}

/// Decodes an sACN DMX data packet from a UDP payload.
pub fn parse_sacn_dmx(payload: &[u8]) -> (r: Result<Option<SacnDmx>, SacnError>)
    ensures
        decoded_as(r, sacn_of(payload@)),
{
    let reader = SacnReader::new(payload);
    reader.require_len(layout::MIN_LEN)?;

    let preamble = reader.read_u16_be(layout::PREAMBLE_SIZE_RANGE)?;
    let postamble = reader.read_u16_be(layout::POSTAMBLE_SIZE_RANGE)?;
    if preamble != layout::PREAMBLE_SIZE || postamble != layout::POSTAMBLE_SIZE {
        return Ok(None);
    }
    let acn_pid = reader.read_slice(layout::ACN_PID_RANGE)?;
    if !is_acn_pid(acn_pid) {
        return Err(SacnError::InvalidAcnPid);
    }
    let root_vector = reader.read_u32_be(layout::ROOT_VECTOR_RANGE)?;
    if root_vector != layout::ROOT_VECTOR_DATA {
        return Err(SacnError::InvalidRootVector { value: root_vector });
    }
    let framing_vector = reader.read_u32_be(layout::FRAMING_VECTOR_RANGE)?;
    if framing_vector != layout::FRAMING_VECTOR_DMX {
        return Err(SacnError::InvalidFramingVector { value: framing_vector });
    }
    let dmp_vector = reader.read_u8(layout::DMP_VECTOR_OFFSET)?;
    if dmp_vector != layout::DMP_VECTOR_SET_PROPERTY {
        return Err(SacnError::InvalidDmpVector { value: dmp_vector });
    }
    reader.read_start_code()?;

    let universe = reader.read_u16_be(layout::UNIVERSE_RANGE)?;
    let cid = reader.read_cid_hex()?;
    let source_name = reader.read_optional_ascii_string(layout::SOURCE_NAME_RANGE)?;
    let sequence = reader.read_optional_nonzero_u8(layout::SEQUENCE_OFFSET)?;
    let data_len = reader.read_dmx_data_len()?;
    let needed: usize = layout::DMX_DATA_OFFSET + data_len;
    let data = reader.read_slice(layout::DMX_DATA_OFFSET..needed)?;
    let slots = slice_to_vec(data);
    Ok(Some(SacnDmx { universe, cid, source_name, sequence, slots }))
}

} // verus!

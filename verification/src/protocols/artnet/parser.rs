//! The ArtDMX decoder.

use super::error::ArtNetError;
use super::layout;
use super::reader::{optional_byte_of, u16_be_of, u16_le_of, valid_dmx_length, ArtNetReader};
use crate::protocols::common::decoded_as;
use vstd::prelude::*;

verus! {

/// A decoded ArtDMX packet. `slots` holds the DMX data followed by zeros.
#[derive(Debug)]
pub struct ArtDmx {
    pub universe: u16,
    pub sequence: Option<u8>,
    pub slots: [u8; 512],
}

/// The view of `ArtDmx`: its texts as characters, its lists as sequences.
pub struct ArtDmxView {
    pub universe: u16,
    pub sequence: Option<u8>,
    pub slots: Seq<u8>,
}

impl View for ArtDmx {
    type V = ArtDmxView;

    open spec fn view(&self) -> ArtDmxView {
        ArtDmxView { universe: self.universe, sequence: self.sequence, slots: self.slots@ }
    }
}

/// The eight bytes "Art-Net" and a terminating zero.
pub open spec fn artnet_id() -> Seq<u8> {
    seq![0x41u8, 0x72u8, 0x74u8, 0x2du8, 0x4eu8, 0x65u8, 0x74u8, 0x00u8]
}

/// `data` followed by zeros up to 512 bytes.
pub open spec fn zero_padded(data: Seq<u8>) -> Seq<u8> {
    Seq::new(
        512,
        |k: int|
            if k < data.len() {
                data[k]
            } else {
                0u8
            },
    )
}

/// What an ArtDMX payload decodes to.
///
/// A payload under 18 bytes is too short. One that does not start with the
/// packet identifier, or whose opcode is not ArtDMX, is not an ArtDMX packet
/// and decodes to nothing. Then the universe must not exceed 0x7fff, the
/// length must be even and in 2..=512, and the payload must hold that many
/// data bytes after the header.
pub open spec fn artdmx_of(payload: Seq<u8>) -> Result<Option<ArtDmxView>, ArtNetError> {
    if payload.len() < 18 {
        Err(ArtNetError::TooShort { needed: 18, actual: payload.len() as usize })
    } else if payload.subrange(0, 8) != artnet_id() {
        Ok(None)
    } else if u16_le_of(payload, 8, 10) != Ok::<u16, ArtNetError>(0x5000) {
        Ok(None)
    } else {
        let universe = u16_le_of(payload, 14, 16)->Ok_0;
        let length = u16_be_of(payload, 16, 18)->Ok_0;
        if universe > 0x7fff {
            Err(ArtNetError::InvalidUniverseId { value: universe })
        } else if !valid_dmx_length(length as int) {
            Err(ArtNetError::InvalidLength { length })
        } else if payload.len() < 18 + length {
            Err(
                ArtNetError::TooShort {
                    needed: (18 + length) as usize,
                    actual: payload.len() as usize,
                },
            )
        } else {
            Ok(
                Some(
                    ArtDmxView {
                        universe,
                        sequence: optional_byte_of(payload, 12)->Ok_0,
                        slots: zero_padded(payload.subrange(18, 18 + length)),
                    },
                ),
            )
        }
    }
}

fn is_artnet_id(signature: &[u8]) -> (r: bool)
    requires
        signature@.len() == 8,
    ensures
        r == (signature@ == artnet_id()),
{
    let id = layout::ARTNET_ID;
    let mut i: usize = 0;
    while i < 8
        invariant
            i <= 8,
            signature@.len() == 8,
            id@ == artnet_id(),
            forall|k: int| 0 <= k < i ==> signature@[k] == artnet_id()[k],
        decreases 8 - i,
    {
        if signature[i] != id[i] {
            return false;
        }
        i += 1;
    }
    assert(signature@ =~= artnet_id());
    true
}

/// Decodes an ArtDMX packet from a UDP payload.
pub fn parse_artdmx(payload: &[u8]) -> (r: Result<Option<ArtDmx>, ArtNetError>)
    ensures
        decoded_as(r, artdmx_of(payload@)),
{
    let reader = ArtNetReader::new(payload);
    reader.require_len(layout::DMX_DATA_OFFSET)?;

    let signature = reader.read_signature()?;
    if !is_artnet_id(signature) {
        return Ok(None);
    }
    let opcode = reader.read_u16_le(layout::OP_CODE_RANGE)?;
    if opcode != layout::ARTDMX_OPCODE {
        return Ok(None);
    }
    let sequence = reader.read_optional_nonzero_u8(layout::SEQUENCE_OFFSET)?;
    let universe = match reader.read_universe_id(layout::UNIVERSE_RANGE) {
        Ok(universe) => universe,
        Err(e) => { return Err(e); },
    };
    let length = reader.read_u16_be(layout::LENGTH_RANGE)?;
    if length < 2 || length > 512 || length % 2 != 0 {
        return Err(ArtNetError::InvalidLength { length });
    }
    let data_len: usize = length as usize;
    let needed: usize = layout::DMX_DATA_OFFSET + data_len;
    reader.require_len(needed)?;
    let data = reader.read_slice(layout::DMX_DATA_OFFSET..needed)?;
    let mut slots = [0u8; 512];
    let mut i: usize = 0;
    while i < data_len
        invariant
            i <= data_len <= 512,
            data@.len() == data_len,
            forall|k: int| 0 <= k < i ==> slots@[k] == data@[k],
            forall|k: int| i <= k < 512 ==> slots@[k] == 0u8,
        decreases data_len - i,
    {
        slots[i] = data[i];
        i += 1;
    }
    assert(slots@ =~= zero_padded(data@));
    Ok(Some(ArtDmx { universe, sequence, slots }))
}

} // verus!

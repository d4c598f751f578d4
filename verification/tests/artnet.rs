use liveshark::protocols::artnet::error::ArtNetError;
use liveshark::protocols::artnet::layout;
use liveshark::protocols::artnet::parser::parse_artdmx;
use liveshark::protocols::artnet::reader::ArtNetReader;
use liveshark::protocols::common::optional_nonzero_u8;

fn artdmx_payload(sequence: u8, universe: u16, slots: &[u8]) -> Vec<u8> {
    let mut payload = vec![0u8; layout::DMX_DATA_OFFSET + slots.len()];
    payload[..layout::ARTNET_ID.len()].copy_from_slice(&layout::ARTNET_ID);
    payload[layout::OP_CODE_RANGE.clone()].copy_from_slice(&layout::ARTDMX_OPCODE.to_le_bytes());
    payload[layout::SEQUENCE_OFFSET] = sequence;
    payload[layout::UNIVERSE_RANGE.clone()].copy_from_slice(&universe.to_le_bytes());
    payload[layout::LENGTH_RANGE.clone()].copy_from_slice(&(slots.len() as u16).to_be_bytes());
    payload[layout::DMX_DATA_OFFSET..].copy_from_slice(slots);
    payload
}

#[test]
fn parse_valid_artdmx() {
    let length = 4u16;
    let mut payload = vec![0u8; layout::DMX_DATA_OFFSET + length as usize];
    payload[..layout::ARTNET_ID.len()].copy_from_slice(&layout::ARTNET_ID);
    payload[layout::OP_CODE_RANGE.clone()].copy_from_slice(&layout::ARTDMX_OPCODE.to_le_bytes());
    payload[layout::SEQUENCE_OFFSET] = 0x12;
    payload[layout::UNIVERSE_RANGE.clone()].copy_from_slice(&1u16.to_le_bytes());
    payload[layout::LENGTH_RANGE.clone()].copy_from_slice(&length.to_be_bytes());
    payload[layout::DMX_DATA_OFFSET..layout::DMX_DATA_OFFSET + 4].copy_from_slice(&[1, 2, 3, 4]);

    let parsed = parse_artdmx(&payload).unwrap();
    assert!(parsed.is_some());
    let parsed = parsed.unwrap();
    assert_eq!(parsed.universe, 1);
    assert_eq!(parsed.sequence, Some(0x12));
    assert_eq!(&parsed.slots[..4], &[1, 2, 3, 4]);
    assert_eq!(parsed.slots[4], 0);
}

#[test]
fn parse_non_artnet() {
    let payload = vec![0u8; layout::DMX_DATA_OFFSET];
    let parsed = parse_artdmx(&payload).unwrap();
    assert!(parsed.is_none());
}

#[test]
fn parse_short_payload() {
    let payload = vec![0u8; layout::DMX_DATA_OFFSET - 1];
    let err = parse_artdmx(&payload).unwrap_err();
    let msg = err.to_string();
    assert!(msg.contains("payload too short"));
}

#[test]
fn parse_invalid_length() {
    let length = (layout::DMX_MAX_SLOTS as u16) + 1;
    let mut payload = vec![0u8; layout::DMX_DATA_OFFSET];
    payload[..layout::ARTNET_ID.len()].copy_from_slice(&layout::ARTNET_ID);
    payload[layout::OP_CODE_RANGE.clone()].copy_from_slice(&layout::ARTDMX_OPCODE.to_le_bytes());
    payload[layout::LENGTH_RANGE.clone()].copy_from_slice(&length.to_be_bytes());

    let err = parse_artdmx(&payload).unwrap_err();
    let msg = err.to_string();
    assert!(msg.contains("invalid ArtDMX length"));
}

#[test]
fn read_optional_nonzero_u8() {
    let payload = [0x00u8, 0x12u8];
    let reader = ArtNetReader::new(&payload);
    assert_eq!(reader.read_optional_nonzero_u8(0).unwrap(), None);
    assert_eq!(reader.read_optional_nonzero_u8(1).unwrap(), Some(0x12));
}

#[test]
fn read_optional_nonzero_u8_too_short() {
    let payload = [];
    let reader = ArtNetReader::new(&payload);
    let err = reader.read_optional_nonzero_u8(0).unwrap_err();
    assert!(matches!(err, ArtNetError::TooShort { .. }));
}

#[test]
fn read_universe_id_rejects_out_of_range() {
    let payload = [0x00u8, 0x80u8];
    let reader = ArtNetReader::new(&payload);
    let err = reader.read_universe_id(0..2).unwrap_err();
    assert!(matches!(err, ArtNetError::InvalidUniverseId { value: 0x8000 }));
}

#[test]
fn read_dmx_length_accepts_valid_range() {
    let mut payload = vec![0u8; layout::LENGTH_RANGE.end];
    payload[layout::LENGTH_RANGE.clone()].copy_from_slice(&2u16.to_be_bytes());
    let reader = ArtNetReader::new(&payload);
    assert_eq!(reader.read_dmx_length(layout::LENGTH_RANGE.clone()).unwrap(), 2);
}

#[test]
fn read_dmx_length_accepts_max() {
    let mut payload = vec![0u8; layout::LENGTH_RANGE.end];
    payload[layout::LENGTH_RANGE.clone()]
        .copy_from_slice(&(layout::DMX_MAX_SLOTS as u16).to_be_bytes());
    let reader = ArtNetReader::new(&payload);
    assert_eq!(
        reader.read_dmx_length(layout::LENGTH_RANGE.clone()).unwrap(),
        layout::DMX_MAX_SLOTS
    );
}

#[test]
fn read_dmx_length_rejects_zero() {
    let mut payload = vec![0u8; layout::LENGTH_RANGE.end];
    payload[layout::LENGTH_RANGE.clone()].copy_from_slice(&0u16.to_be_bytes());
    let reader = ArtNetReader::new(&payload);
    let err = reader.read_dmx_length(layout::LENGTH_RANGE.clone()).unwrap_err();
    assert!(matches!(err, ArtNetError::InvalidDmxLength { len: 0 }));
}

#[test]
fn read_dmx_length_rejects_one() {
    let mut payload = vec![0u8; layout::LENGTH_RANGE.end];
    payload[layout::LENGTH_RANGE.clone()].copy_from_slice(&1u16.to_be_bytes());
    let reader = ArtNetReader::new(&payload);
    let err = reader.read_dmx_length(layout::LENGTH_RANGE.clone()).unwrap_err();
    assert!(matches!(err, ArtNetError::InvalidDmxLength { len: 1 }));
}

#[test]
fn read_dmx_length_rejects_odd_length() {
    let mut payload = vec![0u8; layout::LENGTH_RANGE.end];
    payload[layout::LENGTH_RANGE.clone()].copy_from_slice(&3u16.to_be_bytes());
    let reader = ArtNetReader::new(&payload);
    let err = reader.read_dmx_length(layout::LENGTH_RANGE.clone()).unwrap_err();
    assert!(matches!(err, ArtNetError::InvalidDmxLength { len: 3 }));
}

#[test]
fn read_dmx_length_rejects_odd_max_minus_one() {
    let value = (layout::DMX_MAX_SLOTS as u16) - 1;
    let mut payload = vec![0u8; layout::LENGTH_RANGE.end];
    payload[layout::LENGTH_RANGE.clone()].copy_from_slice(&value.to_be_bytes());
    let reader = ArtNetReader::new(&payload);
    let err = reader.read_dmx_length(layout::LENGTH_RANGE.clone()).unwrap_err();
    assert!(matches!(err, ArtNetError::InvalidDmxLength { len } if len == value as usize));
}

#[test]
fn read_dmx_length_rejects_too_large() {
    let value = (layout::DMX_MAX_SLOTS as u16) + 1;
    let mut payload = vec![0u8; layout::LENGTH_RANGE.end];
    payload[layout::LENGTH_RANGE.clone()].copy_from_slice(&value.to_be_bytes());
    let reader = ArtNetReader::new(&payload);
    let err = reader.read_dmx_length(layout::LENGTH_RANGE.clone()).unwrap_err();
    assert!(matches!(err, ArtNetError::InvalidDmxLength { len } if len == value as usize));
}

#[test]
fn optional_nonzero_u8_zero() {
    assert_eq!(optional_nonzero_u8(0), None);
}

#[test]
fn optional_nonzero_u8_value() {
    assert_eq!(optional_nonzero_u8(12), Some(12));
}

#[test]
fn artdmx_rejects_odd_and_short_lengths() {
    let payload = artdmx_payload(1, 1, &[1, 2, 3]);
    assert!(matches!(
        parse_artdmx(&payload).unwrap_err(),
        ArtNetError::InvalidLength { length: 3 }
    ));
    let payload = artdmx_payload(1, 1, &[1]);
    assert!(matches!(
        parse_artdmx(&payload).unwrap_err(),
        ArtNetError::InvalidLength { length: 1 }
    ));
    let payload = artdmx_payload(1, 1, &[]);
    assert!(matches!(
        parse_artdmx(&payload).unwrap_err(),
        ArtNetError::InvalidLength { length: 0 }
    ));
}

#[test]
fn artdmx_rejects_universe_above_limit() {
    let payload = artdmx_payload(1, 0x8000, &[1, 2]);
    assert!(matches!(
        parse_artdmx(&payload).unwrap_err(),
        ArtNetError::InvalidUniverseId { value: 0x8000 }
    ));
    let payload = artdmx_payload(1, 0x7fff, &[1, 2]);
    assert_eq!(parse_artdmx(&payload).unwrap().unwrap().universe, 0x7fff);
}

#[test]
fn artdmx_needs_all_announced_data() {
    let mut payload = artdmx_payload(1, 1, &[1, 2, 3, 4]);
    payload.truncate(layout::DMX_DATA_OFFSET + 2);
    assert!(matches!(
        parse_artdmx(&payload).unwrap_err(),
        ArtNetError::TooShort { needed: 22, actual: 20 }
    ));
}

#[test]
fn artdmx_other_opcode_is_not_decoded() {
    let mut payload = artdmx_payload(1, 1, &[1, 2]);
    payload[layout::OP_CODE_RANGE.clone()].copy_from_slice(&0x2000u16.to_le_bytes());
    assert!(parse_artdmx(&payload).unwrap().is_none());
}

#[test]
fn artdmx_sequence_zero_is_absent_and_full_frame_decodes() {
    let slots: Vec<u8> = (0..512u32).map(|i| (i % 251) as u8).collect();
    let payload = artdmx_payload(0, 7, &slots);
    let parsed = parse_artdmx(&payload).unwrap().unwrap();
    assert_eq!(parsed.sequence, None);
    assert_eq!(parsed.universe, 7);
    assert_eq!(&parsed.slots[..], &slots[..]);
}

#[test]
fn artnet_error_messages() {
    assert_eq!(
        ArtNetError::TooShort { needed: 18, actual: 17 }.to_string(),
        "payload too short: need 18 bytes, got 17"
    );
    assert_eq!(
        ArtNetError::InvalidDmxLength { len: 3 }.to_string(),
        "invalid DMX length: 3 (expected even, 2..=512)"
    );
    assert_eq!(
        ArtNetError::InvalidUniverseId { value: 40000 }.to_string(),
        "invalid Art-Net universe id: 40000"
    );
    assert_eq!(
        ArtNetError::UnsupportedOpCode { opcode: 8192 }.to_string(),
        "unsupported Art-Net opcode: 8192"
    );
}

#[test]
fn artnet_reader_reads_both_byte_orders() {
    let payload = [0x12u8, 0x34u8, 0x56u8];
    let reader = ArtNetReader::new(&payload);
    assert_eq!(reader.read_u16_le(0..2).unwrap(), 0x3412);
    assert_eq!(reader.read_u16_be(0..2).unwrap(), 0x1234);
    assert_eq!(reader.read_u8(2).unwrap(), 0x56);
    assert_eq!(reader.read_slice(1..3).unwrap(), &[0x34, 0x56]);
    assert!(matches!(
        reader.read_u16_be(0..3).unwrap_err(),
        ArtNetError::TooShort { needed: 2, actual: 3 }
    ));
    assert!(matches!(
        reader.read_slice(2..4).unwrap_err(),
        ArtNetError::TooShort { needed: 4, actual: 3 }
    ));
    assert!(matches!(
        reader.read_u8(3).unwrap_err(),
        ArtNetError::TooShort { needed: 4, actual: 3 }
    ));
    assert!(reader.require_len(3).is_ok());
    assert!(matches!(
        reader.require_len(4).unwrap_err(),
        ArtNetError::TooShort { needed: 4, actual: 3 }
    ));
    assert!(matches!(
        reader.read_signature().unwrap_err(),
        ArtNetError::TooShort { needed: 8, actual: 3 }
    ));
}

use liveshark::protocols::sacn::error::SacnError;
use liveshark::protocols::sacn::layout;
use liveshark::protocols::sacn::parser::parse_sacn_dmx;
use liveshark::protocols::sacn::reader::SacnReader;

fn sacn_header(len: usize) -> Vec<u8> {
    let mut payload = vec![0u8; len];
    payload[layout::PREAMBLE_SIZE_RANGE.clone()]
        .copy_from_slice(&layout::PREAMBLE_SIZE.to_be_bytes());
    payload[layout::POSTAMBLE_SIZE_RANGE.clone()]
        .copy_from_slice(&layout::POSTAMBLE_SIZE.to_be_bytes());
    payload[layout::ACN_PID_RANGE.clone()].copy_from_slice(&layout::ACN_PID);
    payload[layout::ROOT_VECTOR_RANGE.clone()]
        .copy_from_slice(&layout::ROOT_VECTOR_DATA.to_be_bytes());
    payload[layout::FRAMING_VECTOR_RANGE.clone()]
        .copy_from_slice(&layout::FRAMING_VECTOR_DMX.to_be_bytes());
    payload[layout::DMP_VECTOR_OFFSET] = layout::DMP_VECTOR_SET_PROPERTY;
    payload
}

#[test]
fn parse_valid_sacn() {
    let count = 3u16;
    let mut payload = vec![0u8; layout::DMX_DATA_OFFSET + (count - 1) as usize];
    payload[layout::PREAMBLE_SIZE_RANGE.clone()]
        .copy_from_slice(&layout::PREAMBLE_SIZE.to_be_bytes());
    payload[layout::POSTAMBLE_SIZE_RANGE.clone()]
        .copy_from_slice(&layout::POSTAMBLE_SIZE.to_be_bytes());
    payload[layout::ACN_PID_RANGE.clone()].copy_from_slice(&layout::ACN_PID);
    payload[layout::ROOT_VECTOR_RANGE.clone()]
        .copy_from_slice(&layout::ROOT_VECTOR_DATA.to_be_bytes());
    payload[layout::FRAMING_VECTOR_RANGE.clone()]
        .copy_from_slice(&layout::FRAMING_VECTOR_DMX.to_be_bytes());
    payload[layout::DMP_VECTOR_OFFSET] = layout::DMP_VECTOR_SET_PROPERTY;
    payload[layout::UNIVERSE_RANGE.clone()].copy_from_slice(&1u16.to_be_bytes());
    payload[layout::START_CODE_OFFSET] = 0x00;
    payload[layout::SEQUENCE_OFFSET] = 0x01;
    payload[layout::DMP_PROPERTY_VALUE_COUNT_RANGE.clone()].copy_from_slice(&count.to_be_bytes());
    payload[layout::START_CODE_OFFSET] = 0x00;
    payload[layout::DMX_DATA_OFFSET..layout::DMX_DATA_OFFSET + 2].copy_from_slice(&[1, 2]);

    let parsed = parse_sacn_dmx(&payload).unwrap();
    assert!(parsed.is_some());
    let parsed = parsed.unwrap();
    assert_eq!(parsed.universe, 1);
    assert_eq!(parsed.sequence, Some(0x01));
    assert_eq!(&parsed.slots[..2], &[1, 2]);
    assert_eq!(parsed.slots.len(), 2);
}

#[test]
fn parse_non_sacn() {
    let payload = vec![0u8; layout::MIN_LEN];
    let parsed = parse_sacn_dmx(&payload).unwrap();
    assert!(parsed.is_none());
}

#[test]
fn parser_parse_short_payload() {
    let payload = vec![0u8; layout::MIN_LEN - 1];
    let err = parse_sacn_dmx(&payload).unwrap_err();
    let msg = err.to_string();
    assert!(msg.contains("payload too short"));
}

#[test]
fn reader_read_optional_nonzero_u8() {
    let payload = [0x00u8, 0x12u8];
    let reader = SacnReader::new(&payload);
    assert_eq!(reader.read_optional_nonzero_u8(0).unwrap(), None);
    assert_eq!(reader.read_optional_nonzero_u8(1).unwrap(), Some(0x12));
}

#[test]
fn reader_read_optional_nonzero_u8_too_short() {
    let payload = [];
    let reader = SacnReader::new(&payload);
    let err = reader.read_optional_nonzero_u8(0).unwrap_err();
    assert!(matches!(err, SacnError::TooShort { .. }));
}

#[test]
fn parse_invalid_property_value_count() {
    let mut payload = vec![0u8; layout::DMX_DATA_OFFSET];
    payload[layout::PREAMBLE_SIZE_RANGE.clone()]
        .copy_from_slice(&layout::PREAMBLE_SIZE.to_be_bytes());
    payload[layout::POSTAMBLE_SIZE_RANGE.clone()]
        .copy_from_slice(&layout::POSTAMBLE_SIZE.to_be_bytes());
    payload[layout::ACN_PID_RANGE.clone()].copy_from_slice(&layout::ACN_PID);
    payload[layout::ROOT_VECTOR_RANGE.clone()]
        .copy_from_slice(&layout::ROOT_VECTOR_DATA.to_be_bytes());
    payload[layout::FRAMING_VECTOR_RANGE.clone()]
        .copy_from_slice(&layout::FRAMING_VECTOR_DMX.to_be_bytes());
    payload[layout::DMP_VECTOR_OFFSET] = layout::DMP_VECTOR_SET_PROPERTY;
    payload[layout::UNIVERSE_RANGE.clone()].copy_from_slice(&1u16.to_be_bytes());
    payload[layout::START_CODE_OFFSET] = 0x00;
    payload[layout::DMP_PROPERTY_VALUE_COUNT_RANGE.clone()].copy_from_slice(&0u16.to_be_bytes());

    let err = parse_sacn_dmx(&payload).unwrap_err();
    assert!(matches!(err, SacnError::InvalidPropertyValueCount { count: 0 }));
}

#[test]
fn parse_invalid_start_code() {
    let mut payload = vec![0u8; layout::DMX_DATA_OFFSET];
    payload[layout::PREAMBLE_SIZE_RANGE.clone()]
        .copy_from_slice(&layout::PREAMBLE_SIZE.to_be_bytes());
    payload[layout::POSTAMBLE_SIZE_RANGE.clone()]
        .copy_from_slice(&layout::POSTAMBLE_SIZE.to_be_bytes());
    payload[layout::ACN_PID_RANGE.clone()].copy_from_slice(&layout::ACN_PID);
    payload[layout::ROOT_VECTOR_RANGE.clone()]
        .copy_from_slice(&layout::ROOT_VECTOR_DATA.to_be_bytes());
    payload[layout::FRAMING_VECTOR_RANGE.clone()]
        .copy_from_slice(&layout::FRAMING_VECTOR_DMX.to_be_bytes());
    payload[layout::DMP_VECTOR_OFFSET] = layout::DMP_VECTOR_SET_PROPERTY;
    payload[layout::UNIVERSE_RANGE.clone()].copy_from_slice(&1u16.to_be_bytes());
    payload[layout::START_CODE_OFFSET] = 0x01;
    payload[layout::DMP_PROPERTY_VALUE_COUNT_RANGE.clone()].copy_from_slice(&1u16.to_be_bytes());

    let err = parse_sacn_dmx(&payload).unwrap_err();
    assert!(matches!(err, SacnError::InvalidStartCode { value: 0x01 }));
}

#[test]
fn parse_invalid_acn_pid() {
    let mut payload = vec![0u8; layout::MIN_LEN];
    payload[layout::PREAMBLE_SIZE_RANGE.clone()]
        .copy_from_slice(&layout::PREAMBLE_SIZE.to_be_bytes());
    payload[layout::POSTAMBLE_SIZE_RANGE.clone()]
        .copy_from_slice(&layout::POSTAMBLE_SIZE.to_be_bytes());
    payload[layout::ACN_PID_RANGE.clone()].copy_from_slice(b"ASC-E1.17\x01\x02\x03");

    let err = parse_sacn_dmx(&payload).unwrap_err();
    assert!(matches!(err, SacnError::InvalidAcnPid));
}

#[test]
fn parse_invalid_root_vector() {
    let mut payload = vec![0u8; layout::MIN_LEN];
    payload[layout::PREAMBLE_SIZE_RANGE.clone()]
        .copy_from_slice(&layout::PREAMBLE_SIZE.to_be_bytes());
    payload[layout::POSTAMBLE_SIZE_RANGE.clone()]
        .copy_from_slice(&layout::POSTAMBLE_SIZE.to_be_bytes());
    payload[layout::ACN_PID_RANGE.clone()].copy_from_slice(&layout::ACN_PID);
    payload[layout::ROOT_VECTOR_RANGE.clone()].copy_from_slice(&0x0000_0001u32.to_be_bytes());

    let err = parse_sacn_dmx(&payload).unwrap_err();
    assert!(matches!(err, SacnError::InvalidRootVector { value: 1 }));
}

#[test]
fn parse_invalid_framing_vector() {
    let mut payload = vec![0u8; layout::MIN_LEN];
    payload[layout::PREAMBLE_SIZE_RANGE.clone()]
        .copy_from_slice(&layout::PREAMBLE_SIZE.to_be_bytes());
    payload[layout::POSTAMBLE_SIZE_RANGE.clone()]
        .copy_from_slice(&layout::POSTAMBLE_SIZE.to_be_bytes());
    payload[layout::ACN_PID_RANGE.clone()].copy_from_slice(&layout::ACN_PID);
    payload[layout::ROOT_VECTOR_RANGE.clone()]
        .copy_from_slice(&layout::ROOT_VECTOR_DATA.to_be_bytes());
    payload[layout::FRAMING_VECTOR_RANGE.clone()].copy_from_slice(&0x0000_0001u32.to_be_bytes());

    let err = parse_sacn_dmx(&payload).unwrap_err();
    assert!(matches!(err, SacnError::InvalidFramingVector { value: 1 }));
}

#[test]
fn parse_invalid_dmp_vector() {
    let mut payload = vec![0u8; layout::MIN_LEN];
    payload[layout::PREAMBLE_SIZE_RANGE.clone()]
        .copy_from_slice(&layout::PREAMBLE_SIZE.to_be_bytes());
    payload[layout::POSTAMBLE_SIZE_RANGE.clone()]
        .copy_from_slice(&layout::POSTAMBLE_SIZE.to_be_bytes());
    payload[layout::ACN_PID_RANGE.clone()].copy_from_slice(&layout::ACN_PID);
    payload[layout::ROOT_VECTOR_RANGE.clone()]
        .copy_from_slice(&layout::ROOT_VECTOR_DATA.to_be_bytes());
    payload[layout::FRAMING_VECTOR_RANGE.clone()]
        .copy_from_slice(&layout::FRAMING_VECTOR_DMX.to_be_bytes());
    payload[layout::DMP_VECTOR_OFFSET] = 0x00;

    let err = parse_sacn_dmx(&payload).unwrap_err();
    assert!(matches!(err, SacnError::InvalidDmpVector { value: 0 }));
}

#[test]
fn parse_property_value_count_too_large() {
    let mut payload = vec![0u8; layout::DMX_DATA_OFFSET];
    payload[layout::PREAMBLE_SIZE_RANGE.clone()]
        .copy_from_slice(&layout::PREAMBLE_SIZE.to_be_bytes());
    payload[layout::POSTAMBLE_SIZE_RANGE.clone()]
        .copy_from_slice(&layout::POSTAMBLE_SIZE.to_be_bytes());
    payload[layout::ACN_PID_RANGE.clone()].copy_from_slice(&layout::ACN_PID);
    payload[layout::ROOT_VECTOR_RANGE.clone()]
        .copy_from_slice(&layout::ROOT_VECTOR_DATA.to_be_bytes());
    payload[layout::FRAMING_VECTOR_RANGE.clone()]
        .copy_from_slice(&layout::FRAMING_VECTOR_DMX.to_be_bytes());
    payload[layout::DMP_VECTOR_OFFSET] = layout::DMP_VECTOR_SET_PROPERTY;
    payload[layout::UNIVERSE_RANGE.clone()].copy_from_slice(&1u16.to_be_bytes());
    payload[layout::START_CODE_OFFSET] = 0x00;
    payload[layout::DMP_PROPERTY_VALUE_COUNT_RANGE.clone()]
        .copy_from_slice(&(layout::DMX_MAX_SLOTS as u16 + 2).to_be_bytes());

    let err = parse_sacn_dmx(&payload).unwrap_err();
    assert!(matches!(err, SacnError::InvalidPropertyValueCount { count: 514 }));
}

#[test]
fn read_optional_ascii_string() {
    let payload = [b't', b'e', b's', b't', 0x00];
    let reader = SacnReader::new(&payload);
    let value = reader.read_optional_ascii_string(0..payload.len()).unwrap();
    assert_eq!(value.as_deref(), Some("test"));

    let empty = [0x00u8; 4];
    let reader = SacnReader::new(&empty);
    let value = reader.read_optional_ascii_string(0..empty.len()).unwrap();
    assert!(value.is_none());
}

#[test]
fn read_optional_ascii_string_too_short() {
    let payload = [];
    let reader = SacnReader::new(&payload);
    let err = reader.read_optional_ascii_string(0..1).unwrap_err();
    assert!(matches!(err, SacnError::TooShort { .. }));
}

#[test]
fn sacn_decodes_cid_name_and_full_frame() {
    let mut payload = sacn_header(layout::DMX_DATA_OFFSET + 512);
    let cid: [u8; 16] = [
        0x00, 0x11, 0x22, 0x33, 0x44, 0x55, 0x66, 0x77, 0x88, 0x99, 0xaa, 0xbb, 0xcc, 0xdd, 0xee,
        0xff,
    ];
    payload[layout::CID_RANGE.clone()].copy_from_slice(&cid);
    payload[44..44 + 9].copy_from_slice(b"  Desk A ");
    payload[layout::UNIVERSE_RANGE.clone()].copy_from_slice(&300u16.to_be_bytes());
    payload[layout::DMP_PROPERTY_VALUE_COUNT_RANGE.clone()].copy_from_slice(&513u16.to_be_bytes());
    for i in 0..512usize {
        payload[layout::DMX_DATA_OFFSET + i] = (i % 256) as u8;
    }
    let parsed = parse_sacn_dmx(&payload).unwrap().unwrap();
    assert_eq!(parsed.cid, "00112233445566778899aabbccddeeff");
    assert_eq!(parsed.source_name.as_deref(), Some("Desk A"));
    assert_eq!(parsed.universe, 300);
    assert_eq!(parsed.sequence, None);
    assert_eq!(parsed.slots.len(), 512);
    assert_eq!(parsed.slots[511], 255);
}

#[test]
fn sacn_count_of_one_is_rejected_and_data_must_be_there() {
    let mut payload = sacn_header(layout::DMX_DATA_OFFSET);
    payload[layout::DMP_PROPERTY_VALUE_COUNT_RANGE.clone()].copy_from_slice(&1u16.to_be_bytes());
    assert!(matches!(
        parse_sacn_dmx(&payload).unwrap_err(),
        SacnError::InvalidPropertyValueCount { count: 1 }
    ));
    payload[layout::DMP_PROPERTY_VALUE_COUNT_RANGE.clone()].copy_from_slice(&5u16.to_be_bytes());
    assert!(matches!(
        parse_sacn_dmx(&payload).unwrap_err(),
        SacnError::TooShort { needed: 130, actual: 126 }
    ));
}

#[test]
fn sacn_start_code_needs_its_byte() {
    let payload = sacn_header(layout::MIN_LEN);
    assert!(matches!(
        parse_sacn_dmx(&payload).unwrap_err(),
        SacnError::TooShort { needed: 126, actual: 118 }
    ));
}

#[test]
fn sacn_error_messages() {
    assert_eq!(SacnError::InvalidAcnPid.to_string(), "invalid ACN PID");
    assert_eq!(SacnError::InvalidStartCode { value: 1 }.to_string(), "invalid start code: 1");
    assert_eq!(
        SacnError::InvalidPropertyValueCount { count: 514 }.to_string(),
        "invalid property value count: 514"
    );
    assert_eq!(
        SacnError::InvalidDmxLength { length: 600 }.to_string(),
        "invalid DMX data length: 600"
    );
    assert_eq!(SacnError::InvalidRootVector { value: 7 }.to_string(), "invalid root vector: 7");
    assert_eq!(
        SacnError::InvalidFramingVector { value: 9 }.to_string(),
        "invalid framing vector: 9"
    );
    assert_eq!(SacnError::InvalidDmpVector { value: 3 }.to_string(), "invalid DMP vector: 3");
    assert_eq!(
        SacnError::TooShort { needed: 118, actual: 0 }.to_string(),
        "payload too short: need 118 bytes, got 0"
    );
}

#[test]
fn sacn_reader_reads_fields() {
    let payload = [0x01u8, 0x02, 0x03, 0x04, 0x05];
    let reader = SacnReader::new(&payload);
    assert_eq!(reader.read_u32_be(0..4).unwrap(), 0x01020304);
    assert_eq!(reader.read_u16_be(3..5).unwrap(), 0x0405);
    assert_eq!(reader.read_u8(4).unwrap(), 5);
    assert_eq!(reader.read_slice(0..2).unwrap(), &[1, 2]);
    assert!(reader.require_len(5).is_ok());
    assert!(matches!(
        reader.read_u32_be(2..6).unwrap_err(),
        SacnError::TooShort { needed: 6, actual: 5 }
    ));
    assert!(matches!(
        reader.read_cid_hex().unwrap_err(),
        SacnError::TooShort { needed: 38, actual: 5 }
    ));
    let name = [b' ', b'a', b'b', 0xc3, 0xa9, b' ', 0, 0];
    let reader = SacnReader::new(&name);
    assert_eq!(reader.read_ascii_string(0..8).unwrap(), "ab\u{e9}");
}

use etherparse::PacketBuilder;
use liveshark::address::IpAddress;
use liveshark::analysis::udp::error::UdpError;
use liveshark::analysis::udp::parser::{
    parse_udp_packet, udp_from_slice, SlicedFrame, SlicedNet,
};
use liveshark::analysis::udp::reader::UdpReader;
use liveshark::source::LinkType;

#[test]
fn payload_without_header_ok() {
    let payload = [0u8; 12];
    let reader = UdpReader::new(&payload);
    let payload = reader.payload_without_header().unwrap();
    assert_eq!(payload.len(), 4);
}

#[test]
fn payload_without_header_too_short() {
    let payload = [0u8; 7];
    let reader = UdpReader::new(&payload);
    let err = reader.payload_without_header().unwrap_err();
    assert!(matches!(err, UdpError::TooShort { .. }));
}

#[test]
fn parse_udp_ok() {
    let builder = PacketBuilder::ethernet2([1, 2, 3, 4, 5, 6], [7, 8, 9, 10, 11, 12])
        .ipv4([192, 168, 0, 1], [192, 168, 0, 2], 64)
        .udp(6454, 6454);
    let payload = [1, 2, 3, 4];
    let mut packet = Vec::<u8>::with_capacity(builder.size(payload.len()));
    builder.write(&mut packet, &payload).unwrap();

    let parsed = parse_udp_packet(LinkType::Ethernet, &packet).unwrap();
    assert!(parsed.is_some());
    let parsed = parsed.unwrap();
    assert_eq!(parsed.src_port, 6454);
    assert_eq!(parsed.dst_port, 6454);
    assert_eq!(parsed.payload, payload);
}

#[test]
fn parse_non_udp() {
    let builder = PacketBuilder::ethernet2([1, 1, 1, 1, 1, 1], [2, 2, 2, 2, 2, 2])
        .ipv4([10, 0, 0, 1], [10, 0, 0, 2], 64)
        .tcp(1000, 1001, 0, 0);
    let payload = [0u8; 4];
    let mut packet = Vec::<u8>::with_capacity(builder.size(payload.len()));
    builder.write(&mut packet, &payload).unwrap();

    let parsed = parse_udp_packet(LinkType::Ethernet, &packet).unwrap();
    assert!(parsed.is_none());
}

#[test]
fn parse_slice_error() {
    let data = [];
    let result = parse_udp_packet(LinkType::Ethernet, &data);
    assert!(matches!(result, Err(UdpError::Slice(_))));
}

#[test]
fn udp_addresses_come_from_the_ip_header() {
    let builder = PacketBuilder::ethernet2([1, 2, 3, 4, 5, 6], [7, 8, 9, 10, 11, 12])
        .ipv4([192, 168, 0, 1], [10, 1, 2, 3], 64)
        .udp(1234, 5568);
    let payload = [9u8, 8, 7];
    let mut packet = Vec::<u8>::with_capacity(builder.size(payload.len()));
    builder.write(&mut packet, &payload).unwrap();
    let parsed = parse_udp_packet(LinkType::Ethernet, &packet).unwrap().unwrap();
    assert!(matches!(parsed.src_ip, IpAddress::V4([192, 168, 0, 1])));
    assert!(matches!(parsed.dst_ip, IpAddress::V4([10, 1, 2, 3])));
    assert_eq!(parsed.src_port, 1234);
    assert_eq!(parsed.dst_port, 5568);
    assert_eq!(parsed.payload, &[9, 8, 7]);
}

#[test]
fn udp_over_raw_ipv6() {
    let src = [0x20, 0x01, 0x0d, 0xb8, 0, 0, 0, 0, 0, 0, 0, 0, 0, 0, 0, 1];
    let dst = [0xff, 0x02, 0, 0, 0, 0, 0, 0, 0, 0, 0, 0, 0, 0, 0, 2];
    let builder = PacketBuilder::ipv6(src, dst, 64).udp(5568, 5568);
    let payload = [1u8, 2];
    let mut packet = Vec::<u8>::with_capacity(builder.size(payload.len()));
    builder.write(&mut packet, &payload).unwrap();
    let parsed = parse_udp_packet(LinkType::Raw, &packet).unwrap().unwrap();
    assert!(matches!(parsed.src_ip, IpAddress::V6(a) if a == src));
    assert!(matches!(parsed.dst_ip, IpAddress::V6(a) if a == dst));
    assert_eq!(parsed.payload, &[1, 2]);
    assert!(matches!(
        parse_udp_packet(LinkType::Ethernet, &packet),
        Err(UdpError::Slice(_)) | Err(UdpError::MissingNetworkLayer) | Ok(None)
    ));
}

#[test]
fn other_link_types_are_skipped() {
    let data = [1u8, 2, 3];
    assert!(parse_udp_packet(LinkType::Other, &data).unwrap().is_none());
}

#[test]
fn ethernet_frame_without_ip_has_no_network_layer() {
    let mut frame = vec![0u8; 14 + 20];
    frame[12] = 0x88;
    frame[13] = 0xb5;
    let result = parse_udp_packet(LinkType::Ethernet, &frame);
    assert!(matches!(result, Err(UdpError::MissingNetworkLayer)));
}

#[test]
fn arp_frame_carries_no_ip_packet() {
    let mut frame = vec![0u8; 14];
    frame[12] = 0x08;
    frame[13] = 0x06;
    frame.extend_from_slice(&[0, 1, 8, 0, 6, 4, 0, 1]);
    frame.extend_from_slice(&[1, 2, 3, 4, 5, 6, 10, 0, 0, 1]);
    frame.extend_from_slice(&[0, 0, 0, 0, 0, 0, 10, 0, 0, 2]);
    let result = parse_udp_packet(LinkType::Ethernet, &frame);
    assert!(matches!(result, Err(UdpError::MissingNetworkLayer)));
}

#[test]
fn sliced_frames_decode_by_their_layers() {
    let datagram = [0u8, 1, 0, 2, 0, 10, 0, 0, 42, 43];
    let frame = SlicedFrame { net: SlicedNet::Missing, udp: Some((1, 2)) };
    assert!(matches!(udp_from_slice(frame), Err(UdpError::MissingNetworkLayer)));
    let frame = SlicedFrame { net: SlicedNet::NotIp, udp: None };
    assert!(matches!(udp_from_slice(frame), Err(UdpError::MissingNetworkLayer)));
    let frame = SlicedFrame { net: SlicedNet::NotIp, udp: Some((1, 2)) };
    assert!(matches!(udp_from_slice(frame), Err(UdpError::MissingNetworkLayer)));
    let frame = SlicedFrame {
        net: SlicedNet::V4([1, 2, 3, 4], [5, 6, 7, 8], &datagram),
        udp: None,
    };
    assert!(matches!(udp_from_slice(frame), Ok(None)));
    let frame = SlicedFrame {
        net: SlicedNet::V4([1, 2, 3, 4], [5, 6, 7, 8], &datagram),
        udp: Some((1, 2)),
    };
    let packet = udp_from_slice(frame).unwrap().unwrap();
    assert_eq!(packet.payload, &[42, 43]);
    assert_eq!((packet.src_port, packet.dst_port), (1, 2));
    let frame = SlicedFrame {
        net: SlicedNet::V6([0; 16], [1; 16], &datagram[..7]),
        udp: Some((1, 2)),
    };
    assert!(matches!(
        udp_from_slice(frame),
        Err(UdpError::TooShort { needed: 8, actual: 7 })
    ));
}

#[test]
fn udp_error_messages() {
    assert_eq!(
        UdpError::Slice("bad".to_string()).to_string(),
        "packet slice error: bad"
    );
    assert_eq!(UdpError::MissingNetworkLayer.to_string(), "missing network layer in packet");
    assert_eq!(UdpError::MissingIpPayload.to_string(), "missing IP payload in packet");
    assert_eq!(
        UdpError::TooShort { needed: 8, actual: 7 }.to_string(),
        "payload too short: need 8 bytes, got 7"
    );
    let reader = UdpReader::new(&[0u8; 3]);
    assert!(reader.require_len(3).is_ok());
    assert!(matches!(
        reader.require_len(4),
        Err(UdpError::TooShort { needed: 4, actual: 3 })
    ));
}

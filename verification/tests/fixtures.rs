use etherparse::SlicedPacket;
use liveshark::analysis::analyze_source;
use liveshark::fixtures::{
    build_artnet_payload, build_ipv4_udp_packet, build_sacn_payload, capture_packets, cid_bytes,
    enhanced_packet_body, interface_desc_body, ipv4_checksum, parse_ipv4, pcapng_block,
    pcapng_file, section_header_body, CaptureSpec,
};
use liveshark::protocols::artnet::parser::parse_artdmx;
use liveshark::protocols::sacn::parser::parse_sacn_dmx;
use liveshark::source::{LinkType, PacketEvent};
use pcap_parser::traits::PcapReaderIterator;
use pcap_parser::{Block, PcapBlockOwned, PcapError, PcapNGReader};

#[test]
fn built_artnet_payload_decodes() {
    let payload = build_artnet_payload(7, &[1, 2, 3, 4], 300);
    assert_eq!(payload.len(), 22);
    let frame = parse_artdmx(&payload).unwrap().unwrap();
    assert_eq!(frame.universe, 300);
    assert_eq!(frame.sequence, Some(7));
    assert_eq!(&frame.slots[..5], &[1, 2, 3, 4, 0]);
    let long = vec![9u8; 600];
    let payload = build_artnet_payload(0, &long, 1);
    assert_eq!(payload.len(), 18 + 512);
    let frame = parse_artdmx(&payload).unwrap().unwrap();
    assert_eq!(frame.sequence, None);
    assert_eq!(frame.slots, [9u8; 512]);
}

#[test]
fn built_sacn_payload_decodes() {
    assert_eq!(cid_bytes(), [0, 1, 2, 3, 4, 5, 6, 7, 8, 9, 10, 11, 12, 13, 14, 15]);
    let payload = build_sacn_payload(9, &[5, 6, 7], 0x1234);
    assert_eq!(payload.len(), 129);
    let frame = parse_sacn_dmx(&payload).unwrap().unwrap();
    assert_eq!(frame.universe, 0x1234);
    assert_eq!(frame.sequence, Some(9));
    assert_eq!(frame.slots, vec![5, 6, 7]);
    assert_eq!(frame.cid, "000102030405060708090a0b0c0d0e0f");
    assert_eq!(frame.source_name, None);
    let long = vec![1u8; 513];
    let frame = parse_sacn_dmx(&build_sacn_payload(1, &long, 1)).unwrap().unwrap();
    assert_eq!(frame.slots.len(), 512);
}

#[test]
fn addresses_are_read_from_dotted_decimal() {
    assert_eq!(parse_ipv4("10.0.0.1"), [10, 0, 0, 1]);
    assert_eq!(parse_ipv4("192.168.1.255"), [192, 168, 1, 255]);
    assert_eq!(parse_ipv4("1.2"), [1, 2, 0, 0]);
    assert_eq!(parse_ipv4(""), [0, 0, 0, 0]);
    assert_eq!(parse_ipv4("256.x.+7.010"), [0, 0, 7, 10]);
    assert_eq!(parse_ipv4("1..3.-4"), [1, 0, 3, 0]);
    assert_eq!(parse_ipv4("1.2.3.4.5"), [1, 2, 3, 4]);
    assert_eq!(parse_ipv4("+.1.2.3"), [0, 1, 2, 3]);
}

#[test]
fn header_checksum_is_the_internet_checksum() {
    let header: [u8; 20] = [
        0x45, 0x00, 0x00, 0x73, 0x00, 0x00, 0x40, 0x00, 0x40, 0x11, 0x00, 0x00, 0xc0, 0xa8, 0x00,
        0x01, 0xc0, 0xa8, 0x00, 0xc7,
    ];
    assert_eq!(ipv4_checksum(&header), 0xb861);
    assert_eq!(ipv4_checksum(&[0u8; 20]), 0xffff);
    assert_eq!(ipv4_checksum(&[0xffu8; 20]), 0x0000);
}

#[test]
fn built_frame_is_a_udp_datagram() {
    let payload = [1u8, 2, 3, 4, 5];
    let frame = build_ipv4_udp_packet("10.0.0.1", "10.0.0.2", 6454, 5568, &payload);
    assert_eq!(frame.len(), 14 + 20 + 8 + 5);
    let sliced = SlicedPacket::from_ethernet(&frame).unwrap();
    let ip = match sliced.net {
        Some(etherparse::NetSlice::Ipv4(ip)) => ip,
        _ => panic!("no IPv4 packet"),
    };
    assert_eq!(ip.header().source(), [10, 0, 0, 1]);
    assert_eq!(ip.header().destination(), [10, 0, 0, 2]);
    assert_eq!(ip.header().header_checksum(), ip.header().to_header().calc_header_checksum());
    let udp = match sliced.transport {
        Some(etherparse::TransportSlice::Udp(udp)) => udp,
        _ => panic!("no UDP datagram"),
    };
    assert_eq!((udp.source_port(), udp.destination_port()), (6454, 5568));
    assert_eq!(udp.payload(), &payload);
}

#[test]
fn blocks_are_framed_by_their_length() {
    assert_eq!(
        pcapng_block(6, &[1, 2, 3, 4]),
        vec![0, 0, 0, 6, 0, 0, 0, 16, 1, 2, 3, 4, 0, 0, 0, 16]
    );
    assert_eq!(
        section_header_body(),
        vec![0x1a, 0x2b, 0x3c, 0x4d, 0, 1, 0, 0, 255, 255, 255, 255, 255, 255, 255, 255]
    );
    assert_eq!(interface_desc_body(), vec![0, 1, 0, 0, 0, 0, 255, 255]);
    assert_eq!(
        enhanced_packet_body((3u64 << 32) + 5, &[9, 8, 7, 6, 5]),
        vec![0, 0, 0, 0, 0, 0, 0, 3, 0, 0, 0, 5, 0, 0, 0, 5, 0, 0, 0, 5, 9, 8, 7, 6, 5, 0, 0, 0]
    );
    assert_eq!(enhanced_packet_body(0, &[1, 2, 3, 4]).len(), 24);
}

fn read_back(file: Vec<u8>) -> Vec<(u64, Vec<u8>)> {
    let mut reader = PcapNGReader::new(65536, std::io::Cursor::new(file)).unwrap();
    let mut packets = Vec::new();
    loop {
        match reader.next() {
            Ok((offset, block)) => {
                if let PcapBlockOwned::NG(Block::EnhancedPacket(packet)) = block {
                    let ts = ((packet.ts_high as u64) << 32) | packet.ts_low as u64;
                    packets.push((ts, packet.data[..packet.caplen as usize].to_vec()));
                }
                reader.consume(offset);
            }
            Err(PcapError::Eof) => break,
            Err(PcapError::Incomplete(_)) => reader.refill().unwrap(),
            Err(e) => panic!("unreadable capture: {:?}", e),
        }
    }
    packets
}

#[test]
fn sample_captures_read_back_and_analyse() {
    for (spec, proto) in [
        (CaptureSpec::artnet(vec![1, 2, 5, 6, 10]), "artnet"),
        (CaptureSpec::sacn(vec![1, 2, 5, 6, 10]), "sacn"),
    ] {
        let packets = capture_packets(&spec);
        assert_eq!(packets.len(), 5);
        assert_eq!(packets[4].0, 4_000_000);
        let file = pcapng_file(&packets);
        assert_eq!(&file[..4], &[0x0a, 0x0d, 0x0d, 0x0a]);
        assert_eq!(read_back(file), packets);
        let events: Vec<PacketEvent> = packets
            .into_iter()
            .map(|(ts, data)| PacketEvent { ts: Some(ts), linktype: LinkType::Ethernet, data })
            .collect();
        let report = analyze_source("sample.pcapng", 0, &events);
        assert_eq!(report.universes.len(), 1);
        let universe = &report.universes[0];
        assert_eq!(universe.proto, proto);
        assert_eq!(universe.universe, 1);
        assert_eq!(universe.frames_count, 5);
        assert_eq!(universe.loss_packets, Some(5));
        assert_eq!(universe.burst_count, Some(2));
        assert_eq!(universe.max_burst_len, Some(3));
        assert!(report.compliance.is_empty());
    }
    let packets = capture_packets(&CaptureSpec::sacn(vec![1, 2, 10]));
    let events: Vec<PacketEvent> = packets
        .into_iter()
        .map(|(ts, data)| PacketEvent { ts: Some(ts), linktype: LinkType::Ethernet, data })
        .collect();
    let report = analyze_source("sample.pcapng", 0, &events);
    let universe = &report.universes[0];
    assert_eq!(
        (universe.loss_packets, universe.burst_count, universe.max_burst_len),
        (Some(7), Some(1), Some(7))
    );
}

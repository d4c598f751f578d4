use liveshark::address::IpAddress;
use liveshark::analysis::flows::{
    add_flow_stats, build_flow_summaries, FlowKey, FlowStats, FlowTable,
};
use liveshark::analysis::udp::parser::UdpPacket;

fn v4(a: u8, b: u8, c: u8, d: u8) -> IpAddress {
    IpAddress::V4([a, b, c, d])
}

fn secs(s: f64) -> Option<u64> {
    Some((s * 1_000_000.0).round() as u64)
}

#[test]
fn summaries_are_sorted_and_no_duration_means_none_rates() {
    let mut stats = FlowTable::new();
    let a = v4(10, 0, 0, 1);
    let b = v4(10, 0, 0, 2);
    let c = v4(10, 0, 0, 3);

    stats.insert(
        FlowKey { src_ip: b, src_port: 1000, dst_ip: c, dst_port: 2000 },
        FlowStats { packets: 10, bytes: 100, ..Default::default() },
    );
    stats.insert(
        FlowKey { src_ip: a, src_port: 1000, dst_ip: c, dst_port: 2000 },
        FlowStats { packets: 5, bytes: 50, ..Default::default() },
    );

    let summaries = build_flow_summaries(stats, None);
    assert_eq!(summaries.len(), 2);
    assert!(summaries[0].src < summaries[1].src);
    assert!(summaries[0].pps.is_none());
    assert!(summaries[0].bps.is_none());
    assert!(summaries[1].pps.is_none());
    assert!(summaries[1].bps.is_none());
}

#[test]
fn summaries_compute_peak_rates_from_window() {
    let mut stats = FlowTable::new();
    let a = v4(10, 0, 0, 1);
    let b = v4(10, 0, 0, 2);
    let packet = UdpPacket { src_ip: a, src_port: 1000, dst_ip: b, dst_port: 2000, payload: &[0u8; 10] };

    add_flow_stats(&mut stats, &packet, secs(0.0));
    add_flow_stats(&mut stats, &packet, secs(0.2));
    add_flow_stats(&mut stats, &packet, secs(0.4));
    add_flow_stats(&mut stats, &packet, secs(2.0));

    let summaries = build_flow_summaries(stats, secs(2.0));
    let summary = &summaries[0];
    assert_eq!(summary.pps.map(|v| v as f64), Some(3.0));
    assert_eq!(summary.bps.map(|v| v as f64), Some(30.0));
}

#[test]
fn flow_jitter_is_average_of_iat_diffs() {
    let mut stats = FlowTable::new();
    let packet = UdpPacket {
        src_ip: v4(10, 0, 0, 1),
        src_port: 1000,
        dst_ip: v4(10, 0, 0, 2),
        dst_port: 2000,
        payload: &[0u8; 4],
    };

    add_flow_stats(&mut stats, &packet, secs(0.0));
    add_flow_stats(&mut stats, &packet, secs(1.0));
    add_flow_stats(&mut stats, &packet, secs(3.0));

    let summaries = build_flow_summaries(stats, secs(3.0));
    let summary = &summaries[0];
    let jitter = summary.iat_jitter_us.map(|us| us as f64 / 1000.0).unwrap_or(0.0);
    assert!((jitter - 1000.0).abs() < 0.1);
}

#[test]
fn flow_jitter_missing_timestamps_is_none() {
    let mut stats = FlowTable::new();
    let packet = UdpPacket {
        src_ip: v4(10, 0, 0, 1),
        src_port: 1000,
        dst_ip: v4(10, 0, 0, 2),
        dst_port: 2000,
        payload: &[0u8; 4],
    };

    add_flow_stats(&mut stats, &packet, None);
    add_flow_stats(&mut stats, &packet, None);

    let summaries = build_flow_summaries(stats, None);
    let summary = &summaries[0];
    assert!(summary.iat_jitter_us.is_none());
}

#[test]
fn flow_max_iat_ms_is_reported() {
    let mut stats = FlowTable::new();
    let packet = UdpPacket {
        src_ip: v4(10, 0, 0, 1),
        src_port: 1000,
        dst_ip: v4(10, 0, 0, 2),
        dst_port: 2000,
        payload: &[0u8; 10],
    };

    add_flow_stats(&mut stats, &packet, secs(0.0));
    add_flow_stats(&mut stats, &packet, secs(0.5));
    add_flow_stats(&mut stats, &packet, secs(2.0));

    let summaries = build_flow_summaries(stats, secs(2.0));
    let summary = &summaries[0];
    assert_eq!(summary.max_iat_ms, Some(1500));
}

#[test]
fn flow_peak_1s_metrics_are_reported() {
    let mut stats = FlowTable::new();
    let packet = UdpPacket {
        src_ip: v4(10, 0, 0, 1),
        src_port: 1000,
        dst_ip: v4(10, 0, 0, 2),
        dst_port: 2000,
        payload: &[0u8; 10],
    };

    add_flow_stats(&mut stats, &packet, secs(0.0));
    add_flow_stats(&mut stats, &packet, secs(0.2));
    add_flow_stats(&mut stats, &packet, secs(0.4));
    add_flow_stats(&mut stats, &packet, secs(2.0));

    let summaries = build_flow_summaries(stats, secs(2.0));
    let summary = &summaries[0];
    assert_eq!(summary.pps_peak_1s, Some(3));
    assert_eq!(summary.bps_peak_1s, Some(30));
}

#[test]
fn flow_endpoints_are_written_by_family() {
    let mut stats = FlowTable::new();
    let mut v6 = [0u8; 16];
    v6[0] = 0xfe;
    v6[1] = 0x80;
    v6[15] = 1;
    stats.insert(
        FlowKey { src_ip: IpAddress::V6(v6), src_port: 5568, dst_ip: v4(239, 255, 0, 1), dst_port: 5568 },
        FlowStats::default(),
    );
    let summaries = build_flow_summaries(stats, None);
    assert_eq!(summaries[0].app_proto, "udp");
    assert_eq!(summaries[0].src, "[fe80::1]:5568");
    assert_eq!(summaries[0].dst, "239.255.0.1:5568");
    assert!(summaries[0].max_iat_ms.is_none());
    assert!(summaries[0].pps_peak_1s.is_none());
}

#[test]
fn flows_are_listed_by_source_then_destination() {
    let mut stats = FlowTable::new();
    for (src, dst) in [((10, 2), (9, 1)), ((10, 10), (1, 1)), ((10, 2), (1, 1)), ((9, 9), (9, 9))] {
        stats.insert(
            FlowKey {
                src_ip: v4(10, 0, 0, src.0),
                src_port: src.1,
                dst_ip: v4(10, 0, 0, dst.0),
                dst_port: dst.1,
            },
            FlowStats::default(),
        );
    }
    let summaries = build_flow_summaries(stats, None);
    let pairs: Vec<(String, String)> =
        summaries.iter().map(|s| (s.src.clone(), s.dst.clone())).collect();
    let mut sorted = pairs.clone();
    sorted.sort();
    assert_eq!(pairs, sorted);
    assert_eq!(pairs[0].0, "10.0.0.10:10");
    assert_eq!(pairs[1], ("10.0.0.10:2".to_string(), "10.0.0.1:1".to_string()));
    assert_eq!(pairs[2], ("10.0.0.10:2".to_string(), "10.0.0.9:1".to_string()));
}

#[test]
fn rate_window_drops_samples_older_than_a_second() {
    let mut stats = FlowTable::new();
    let packet = UdpPacket {
        src_ip: v4(10, 0, 0, 1),
        src_port: 1,
        dst_ip: v4(10, 0, 0, 2),
        dst_port: 2,
        payload: &[0u8; 5],
    };
    for t in [0.0, 0.5, 1.0, 1.6, 2.7] {
        add_flow_stats(&mut stats, &packet, secs(t));
        let flow = &stats.entries[0].stats;
        let now = secs(t).unwrap();
        assert!(flow.window_samples.iter().all(|(ts, _)| now - ts <= 1_000_000));
        assert_eq!(flow.window_packets as usize, flow.window_samples.len());
    }
    let flow = &stats.entries[0].stats;
    assert_eq!(flow.packets, 5);
    assert_eq!(flow.bytes, 25);
    assert_eq!(flow.window_packets, 1);
    assert_eq!(flow.peak_window_packets, 3);
    assert_eq!(flow.peak_window_bytes, 15);
    assert_eq!(flow.max_iat_ms, Some(1100));
    assert_eq!(flow.iat_count, 4);
}

#[test]
fn inter_arrival_time_rounds_to_nearest_millisecond() {
    let mut stats = FlowTable::new();
    let packet = UdpPacket {
        src_ip: v4(10, 0, 0, 1),
        src_port: 1,
        dst_ip: v4(10, 0, 0, 2),
        dst_port: 2,
        payload: &[],
    };
    add_flow_stats(&mut stats, &packet, Some(0));
    add_flow_stats(&mut stats, &packet, Some(1_499));
    assert_eq!(stats.entries[0].stats.max_iat_ms, Some(1));
    add_flow_stats(&mut stats, &packet, Some(1_499 + 2_500));
    assert_eq!(stats.entries[0].stats.max_iat_ms, Some(3));
    add_flow_stats(&mut stats, &packet, Some(10));
    assert_eq!(stats.entries[0].stats.iat_count, 2);
}

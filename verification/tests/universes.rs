use liveshark::address::IpAddress;
use liveshark::analysis::conflicts::build_conflicts;
use liveshark::analysis::dmx::{DmxFrame, DmxProtocol, DmxStore};
use liveshark::analysis::fps::fps_from_dmx;
use liveshark::analysis::table::Table;
use liveshark::analysis::universes::{
    add_artnet_frame, add_sacn_frame, build_artnet_universe_summaries,
    build_sacn_universe_summaries, compute_metrics, update_source_stats, update_ts_bounds,
    UniverseSourceStats, UniverseTable,
};
use liveshark::Ratio;
use std::collections::VecDeque;

fn secs(s: f64) -> Option<u64> {
    Some((s * 1_000_000.0).round() as u64)
}

fn value(r: Option<Ratio>) -> f64 {
    r.map(|r| r.num as f64 / r.den as f64).unwrap_or(0.0)
}

#[test]
fn universe_summary_without_timestamps_has_no_metrics() {
    let mut stats = UniverseTable::new();
    let ip = IpAddress::V4([10, 0, 0, 1]);
    add_artnet_frame(&mut stats, 1, &ip, 6454, None, None);

    let dmx_store = DmxStore::new();
    let summaries = build_artnet_universe_summaries(stats, &dmx_store);
    assert_eq!(summaries.len(), 1);
    let summary = &summaries[0];
    assert_eq!(summary.universe, 1);
    assert!(summary.fps.is_none());
    assert!(summary.loss_packets.is_none());
    assert!(summary.loss_rate.is_none());
    assert!(summary.burst_count.is_none());
    assert!(summary.max_burst_len.is_none());
    assert!(summary.jitter_us.is_none());
}

#[test]
fn conflict_requires_overlap_over_one_second() {
    let mut stats = UniverseTable::new();
    let ip_a = IpAddress::V4([10, 0, 0, 1]);
    let ip_b = IpAddress::V4([10, 0, 0, 2]);

    add_artnet_frame(&mut stats, 1, &ip_a, 6454, None, secs(0.0));
    add_artnet_frame(&mut stats, 1, &ip_a, 6454, None, secs(2.5));
    add_artnet_frame(&mut stats, 1, &ip_b, 6454, None, secs(1.0));
    add_artnet_frame(&mut stats, 1, &ip_b, 6454, None, secs(3.0));

    let conflicts = build_conflicts(&stats);
    assert_eq!(conflicts.len(), 1);
    let conflict = &conflicts[0];
    assert_eq!(conflict.universe, 1);
    assert_eq!(conflict.sources.len(), 2);
    assert!(conflict.sources.contains(&"artnet:10.0.0.1:6454".to_string()));
    assert!(conflict.sources.contains(&"artnet:10.0.0.2:6454".to_string()));
}

#[test]
fn jitter_uses_sliding_window() {
    let mut source_stats = UniverseSourceStats::default();
    update_source_stats(&mut source_stats, None, secs(0.0));
    update_source_stats(&mut source_stats, None, secs(1.0));
    update_source_stats(&mut source_stats, None, secs(2.0));
    update_source_stats(&mut source_stats, None, secs(13.0));

    let mut per_source = Table::new();
    per_source.insert("artnet:10.0.0.1:6454".to_string(), source_stats);
    let metrics = compute_metrics(&per_source);

    let jitter_ms = metrics.jitter_us.map(|us| us as f64 / 1000.0).unwrap_or(0.0);
    assert!((jitter_ms - 10000.0).abs() < 0.1);
}

#[test]
fn loss_rate_uses_sequence_tracked_frames() {
    let mut per_source = Table::new();
    per_source.insert(
        "artnet:10.0.0.1:6454".to_string(),
        UniverseSourceStats { frames: 2, loss: 1, last_seq: Some(1), ..UniverseSourceStats::default() },
    );
    per_source.insert(
        "artnet:10.0.0.2:6454".to_string(),
        UniverseSourceStats { frames: 10, last_seq: None, ..UniverseSourceStats::default() },
    );

    let metrics = compute_metrics(&per_source);
    let loss_rate = value(metrics.loss_rate);
    assert!((loss_rate - (1.0 / 3.0)).abs() < 0.0001);
}

#[test]
fn loss_uses_windowed_samples() {
    let mut per_source = Table::new();
    per_source.insert(
        "artnet:10.0.0.1:6454".to_string(),
        UniverseSourceStats {
            frames: 2,
            loss: 5,
            loss_sum: 2,
            loss_samples: VecDeque::from([(20_000_000, 2)]),
            frame_samples: VecDeque::from([19_000_000, 20_000_000]),
            last_seq: Some(1),
            ..UniverseSourceStats::default()
        },
    );

    let metrics = compute_metrics(&per_source);
    assert_eq!(metrics.loss_packets, Some(2));
    assert_eq!(metrics.loss_rate.map(|r| r.num as f64 / r.den as f64), Some(0.5));
}

#[test]
fn fps_uses_last_five_seconds() {
    let mut stats = UniverseTable::new();
    let ip = IpAddress::V4([10, 0, 0, 1]);
    add_artnet_frame(&mut stats, 1, &ip, 6454, None, secs(0.0));
    add_artnet_frame(&mut stats, 1, &ip, 6454, None, secs(1.0));
    add_artnet_frame(&mut stats, 1, &ip, 6454, None, secs(2.0));
    add_artnet_frame(&mut stats, 1, &ip, 6454, None, secs(7.0));

    let mut dmx_store = DmxStore::new();
    let mut slots = [0u8; 512];
    slots[0] = 1;
    for ts in [0.0, 1.0, 2.0, 7.0] {
        dmx_store.push(DmxFrame {
            universe: 1,
            timestamp: secs(ts),
            source_id: "artnet:10.0.0.1:6454".to_string(),
            protocol: DmxProtocol::ArtNet,
            slots,
        });
    }

    let summaries = build_artnet_universe_summaries(stats, &dmx_store);
    let fps = value(summaries[0].fps);
    assert!((fps - 0.4).abs() < 0.0001);
}

fn feed(sequences: &[u8]) -> UniverseSourceStats {
    let mut stats = UniverseSourceStats::default();
    for (i, seq) in sequences.iter().enumerate() {
        update_source_stats(&mut stats, Some(*seq), Some(i as u64 * 1_000_000));
    }
    stats
}

#[test]
fn loss_is_the_sum_of_the_gaps_and_bursts_are_runs_of_gaps() {
    let stats = feed(&[1, 2, 5, 6, 10]);
    assert_eq!(stats.loss, 5);
    assert_eq!(stats.loss_sum, 5);
    assert_eq!(stats.burst_count, 2);
    assert_eq!(stats.max_burst_len, 3);
    assert_eq!(stats.current_burst, 3);
    assert_eq!(stats.burst_start_samples, VecDeque::from([2_000_000, 4_000_000]));
    assert_eq!(stats.burst_length_samples, VecDeque::from([(3_000_000, 2)]));

    let stats = feed(&[1, 2, 10]);
    assert_eq!((stats.loss, stats.burst_count, stats.max_burst_len), (7, 1, 7));

    let stats = feed(&[1, 3, 5, 6, 9]);
    assert_eq!((stats.loss, stats.burst_count, stats.max_burst_len), (1 + 1 + 2, 2, 2));
}

#[test]
fn sequence_numbers_wrap_and_large_gaps_are_reordering() {
    let stats = feed(&[254, 255, 1, 2]);
    assert_eq!((stats.loss, stats.burst_count), (1, 1));
    let stats = feed(&[10, 9, 11]);
    assert_eq!(stats.loss, 1);
    let stats = feed(&[10, 138]);
    assert_eq!(stats.loss, 127);
    let stats = feed(&[10, 139]);
    assert_eq!(stats.loss, 0);
    let stats = feed(&[10, 10]);
    assert_eq!(stats.loss, 0);
}

#[test]
fn windows_hold_no_sample_older_than_ten_seconds() {
    let mut stats = UniverseSourceStats::default();
    let mut seq = 0u8;
    for step in 0..40u64 {
        let now = step * 900_000;
        seq = seq.wrapping_add(if step % 3 == 0 { 3 } else { 1 });
        update_source_stats(&mut stats, Some(seq), Some(now));
        assert!(stats.frame_samples.iter().all(|ts| now - ts <= 10_000_000));
        assert!(stats.loss_samples.iter().all(|(ts, _)| now - ts <= 10_000_000));
        assert!(stats.jitter_samples.iter().all(|(ts, _)| now - ts <= 10_000_000));
        assert!(stats.burst_start_samples.iter().all(|ts| now - ts <= 10_000_000));
        assert!(stats.burst_length_samples.iter().all(|(ts, _)| now - ts <= 10_000_000));
        let sum: u64 = stats.loss_samples.iter().map(|(_, gap)| *gap).sum();
        assert_eq!(stats.loss_sum, sum);
        let jitter: u128 = stats.jitter_samples.iter().map(|(_, d)| *d as u128).sum();
        assert_eq!(stats.jitter_sum, jitter);
    }
    assert_eq!(stats.frames, 40);
    assert_eq!(stats.frame_samples.len(), 12);
    assert_eq!(stats.first_ts, Some(0));
    assert_eq!(stats.last_ts, Some(39 * 900_000));
}

#[test]
fn frames_without_time_count_but_leave_the_windows() {
    let mut stats = UniverseSourceStats::default();
    update_source_stats(&mut stats, Some(1), None);
    update_source_stats(&mut stats, Some(4), None);
    assert_eq!(stats.frames, 2);
    assert_eq!(stats.loss, 2);
    assert_eq!(stats.loss_sum, 0);
    assert_eq!(stats.burst_count, 1);
    assert!(stats.frame_samples.is_empty());
    assert!(stats.loss_samples.is_empty());
    assert_eq!(stats.first_ts, None);
    let mut per_source = Table::new();
    per_source.insert("a".to_string(), stats);
    let metrics = compute_metrics(&per_source);
    assert_eq!(metrics.loss_packets, Some(2));
    assert_eq!(metrics.burst_count, Some(1));
    assert_eq!(metrics.max_burst_len, Some(2));
    assert_eq!(metrics.loss_rate, Some(Ratio { num: 2, den: 4 }));
    assert_eq!(metrics.jitter_us, None);
}

#[test]
fn jitter_is_the_mean_over_sources_of_their_means() {
    let mut a = UniverseSourceStats::default();
    for t in [0u64, 1_000_000, 3_000_000, 4_000_000] {
        update_source_stats(&mut a, None, Some(t));
    }
    assert_eq!(a.jitter_sum, 2_000_000);
    assert_eq!(a.jitter_samples.len(), 2);
    let mut b = UniverseSourceStats::default();
    for t in [0u64, 1_000_000, 2_000_000] {
        update_source_stats(&mut b, None, Some(t));
    }
    assert_eq!(b.jitter_sum, 0);
    let mut per_source = Table::new();
    per_source.insert("a".to_string(), a);
    per_source.insert("b".to_string(), b);
    per_source.insert("c".to_string(), UniverseSourceStats::default());
    let metrics = compute_metrics(&per_source);
    assert_eq!(metrics.jitter_us, Some(500_000));
    assert_eq!(metrics.loss_packets, None);
}

#[test]
fn bounds_widen_to_hold_each_time() {
    let (mut first, mut last) = (None, None);
    update_ts_bounds(&mut first, &mut last, None);
    assert_eq!((first, last), (None, None));
    update_ts_bounds(&mut first, &mut last, Some(5));
    assert_eq!((first, last), (Some(5), Some(5)));
    update_ts_bounds(&mut first, &mut last, Some(3));
    update_ts_bounds(&mut first, &mut last, Some(9));
    update_ts_bounds(&mut first, &mut last, Some(4));
    assert_eq!((first, last), (Some(3), Some(9)));
}

#[test]
fn source_identities() {
    let mut artnet = UniverseTable::new();
    let mut sacn = UniverseTable::new();
    let ip = IpAddress::V4([192, 168, 1, 20]);
    let id = add_artnet_frame(&mut artnet, 4, &ip, 6454, Some(1), None);
    assert_eq!(id, "artnet:192.168.1.20:6454");
    let id = add_sacn_frame(&mut sacn, 4, &ip, 5568, "00ff".to_string(), None, None, None);
    assert_eq!(id, "sacn:cid:00ff");
    let id = add_sacn_frame(
        &mut sacn,
        4,
        &ip,
        5568,
        String::new(),
        Some("desk".to_string()),
        None,
        None,
    );
    assert_eq!(id, "sacn:192.168.1.20:5568");
    let summaries = build_sacn_universe_summaries(sacn, &DmxStore::new());
    assert_eq!(summaries.len(), 1);
    assert_eq!(summaries[0].proto, "sacn");
    assert_eq!(summaries[0].frames_count, 2);
    assert_eq!(summaries[0].sources.len(), 2);
    assert_eq!(summaries[0].sources[0].cid.as_deref(), Some("00ff"));
    assert_eq!(summaries[0].sources[1].source_name.as_deref(), Some("desk"));
    assert_eq!(summaries[0].dup_packets, None);
    assert_eq!(summaries[0].reordered_packets, None);
}

#[test]
fn universes_and_their_sources_are_listed_in_order() {
    let mut stats = UniverseTable::new();
    for (universe, last) in [(7u16, 9u8), (2, 3), (7, 1), (2, 200), (5, 5)] {
        let ip = IpAddress::V4([10, 0, 0, last]);
        add_artnet_frame(&mut stats, universe, &ip, 6454, None, None);
    }
    let summaries = build_artnet_universe_summaries(stats, &DmxStore::new());
    let numbers: Vec<u16> = summaries.iter().map(|s| s.universe).collect();
    assert_eq!(numbers, vec![2, 5, 7]);
    let ips: Vec<&str> = summaries[0].sources.iter().map(|s| s.source_ip.as_str()).collect();
    assert_eq!(ips, vec!["10.0.0.200", "10.0.0.3"]);
    let ips: Vec<&str> = summaries[2].sources.iter().map(|s| s.source_ip.as_str()).collect();
    assert_eq!(ips, vec!["10.0.0.1", "10.0.0.9"]);
    assert_eq!(summaries[2].frames_count, 2);
}

#[test]
fn overlap_of_exactly_one_second_is_no_conflict() {
    let mut stats = UniverseTable::new();
    let a = IpAddress::V4([10, 0, 0, 1]);
    let b = IpAddress::V4([10, 0, 0, 2]);
    let c = IpAddress::V4([10, 0, 0, 3]);
    add_artnet_frame(&mut stats, 1, &a, 6454, None, secs(0.0));
    add_artnet_frame(&mut stats, 1, &a, 6454, None, secs(2.0));
    add_artnet_frame(&mut stats, 1, &b, 6454, None, secs(1.0));
    add_artnet_frame(&mut stats, 1, &b, 6454, None, secs(5.0));
    add_artnet_frame(&mut stats, 1, &c, 6454, None, None);
    assert!(build_conflicts(&stats).is_empty());
    add_artnet_frame(&mut stats, 1, &a, 6454, None, Some(2_000_001));
    let conflicts = build_conflicts(&stats);
    assert_eq!(conflicts.len(), 1);
    assert_eq!(conflicts[0].overlap_duration_us, 1_000_001);
    assert_eq!(conflicts[0].conflict_score, 1_000_001);
    assert_eq!(conflicts[0].severity, "medium");
    assert!(conflicts[0].affected_channels.is_empty());
    assert_eq!(conflicts[0].sources, vec!["artnet:10.0.0.1:6454", "artnet:10.0.0.2:6454"]);
}

#[test]
fn every_conflicting_pair_is_reported_once_in_order() {
    let mut stats = UniverseTable::new();
    for universe in [9u16, 3] {
        for last in [3u8, 1, 2] {
            let ip = IpAddress::V4([10, 0, 0, last]);
            add_artnet_frame(&mut stats, universe, &ip, 6454, None, secs(0.0));
            add_artnet_frame(&mut stats, universe, &ip, 6454, None, secs(4.0));
        }
    }
    let conflicts = build_conflicts(&stats);
    let listed: Vec<(u16, String)> =
        conflicts.iter().map(|c| (c.universe, c.sources.join(","))).collect();
    let pair = |a: u8, b: u8| format!("artnet:10.0.0.{}:6454,artnet:10.0.0.{}:6454", a, b);
    assert_eq!(
        listed,
        vec![
            (3, pair(1, 2)),
            (3, pair(1, 3)),
            (3, pair(2, 3)),
            (9, pair(1, 2)),
            (9, pair(1, 3)),
            (9, pair(2, 3)),
        ]
    );
    assert!(conflicts.iter().all(|c| c.overlap_duration_us == 4_000_000));
}

#[test]
fn frame_rate_is_measured_on_timed_frames() {
    let mut store = DmxStore::new();
    let frame = |ts: Option<u64>, universe: u16| DmxFrame {
        universe,
        timestamp: ts,
        source_id: "s".to_string(),
        protocol: DmxProtocol::Sacn,
        slots: [0u8; 512],
    };
    assert_eq!(fps_from_dmx(&store, 1, DmxProtocol::Sacn, 3), None);
    store.push(frame(None, 1));
    store.push(frame(Some(1_000_000), 1));
    assert_eq!(fps_from_dmx(&store, 1, DmxProtocol::Sacn, 3), None);
    store.push(frame(Some(1_000_000), 1));
    assert_eq!(fps_from_dmx(&store, 1, DmxProtocol::Sacn, 3), None);
    store.push(frame(Some(3_000_000), 1));
    store.push(frame(Some(2_000_000), 2));
    assert_eq!(
        fps_from_dmx(&store, 1, DmxProtocol::Sacn, 0),
        Some(Ratio { num: 3_000_000, den: 2_000_000 })
    );
    assert_eq!(fps_from_dmx(&store, 1, DmxProtocol::ArtNet, 0), None);
    store.push(frame(Some(9_000_000), 1));
    assert_eq!(
        fps_from_dmx(&store, 1, DmxProtocol::Sacn, 0),
        Some(Ratio { num: 1_000_000, den: 5_000_000 })
    );
}

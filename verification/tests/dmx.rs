use liveshark::analysis::dmx::{DmxFrame, DmxProtocol, DmxStateStore, DmxStore};

#[test]
fn stores_frames_by_universe_and_source() {
    let mut store = DmxStore::new();
    let mut slots = [0u8; 512];
    slots[0] = 42;

    let frame = DmxFrame {
        universe: 1,
        timestamp: Some(1_000_000),
        source_id: "artnet:10.0.0.1:6454".to_string(),
        protocol: DmxProtocol::ArtNet,
        slots,
    };

    store.push(frame.clone());
    let stored = store.frames_for(1, "artnet:10.0.0.1:6454").unwrap();
    assert_eq!(stored.len(), 1);
    assert_eq!(stored[0], frame);
}

#[test]
fn stateful_reconstruction_retains_last_known_values_artnet() {
    let mut state = DmxStateStore::new();
    let slots = state.apply_partial(
        1,
        "artnet:10.0.0.1:6454".to_string(),
        DmxProtocol::ArtNet,
        &[10, 11, 12, 13, 14, 15, 16, 17, 18, 19],
    );
    assert_eq!(&slots[..10], &[10, 11, 12, 13, 14, 15, 16, 17, 18, 19]);
    assert_eq!(slots[10], 0);
    assert_eq!(slots[511], 0);

    let slots = state.apply_partial(
        1,
        "artnet:10.0.0.1:6454".to_string(),
        DmxProtocol::ArtNet,
        &[42, 43, 44, 45, 46],
    );
    assert_eq!(&slots[..5], &[42, 43, 44, 45, 46]);
    assert_eq!(&slots[5..10], &[15, 16, 17, 18, 19]);
    assert_eq!(slots[10], 0);
    assert_eq!(slots[511], 0);
}

#[test]
fn stateful_reconstruction_retains_last_known_values_sacn() {
    let mut state = DmxStateStore::new();
    let slots = state.apply_partial(
        1,
        "sacn:cid:00112233445566778899aabbccddeeff".to_string(),
        DmxProtocol::Sacn,
        &[1, 2, 3, 4, 5, 6, 7, 8, 9, 10],
    );
    assert_eq!(&slots[..10], &[1, 2, 3, 4, 5, 6, 7, 8, 9, 10]);
    assert_eq!(slots[10], 0);
    assert_eq!(slots[511], 0);

    let slots = state.apply_partial(
        1,
        "sacn:cid:00112233445566778899aabbccddeeff".to_string(),
        DmxProtocol::Sacn,
        &[200, 201, 202, 203, 204],
    );
    assert_eq!(&slots[..5], &[200, 201, 202, 203, 204]);
    assert_eq!(&slots[5..10], &[6, 7, 8, 9, 10]);
    assert_eq!(slots[10], 0);
    assert_eq!(slots[511], 0);
}

#[test]
fn state_isolated_by_universe_and_protocol() {
    let mut state = DmxStateStore::new();
    let source_id = "source:example".to_string();

    let artnet_slots = state.apply_partial(1, source_id.clone(), DmxProtocol::ArtNet, &[9, 8]);
    let sacn_slots = state.apply_partial(1, source_id.clone(), DmxProtocol::Sacn, &[1, 2]);
    let other_universe = state.apply_partial(2, source_id.clone(), DmxProtocol::ArtNet, &[7]);

    assert_eq!(&artnet_slots[..2], &[9, 8]);
    assert_eq!(&sacn_slots[..2], &[1, 2]);
    assert_eq!(other_universe[0], 7);

    let artnet_again = state.apply_partial(1, source_id, DmxProtocol::ArtNet, &[]);
    assert_eq!(&artnet_again[..2], &[9, 8]);
}

#[test]
fn partial_longer_than_a_universe_is_cut() {
    let mut state = DmxStateStore::new();
    let long = vec![7u8; 600];
    let slots = state.apply_partial(3, "s".to_string(), DmxProtocol::Sacn, &long);
    assert_eq!(slots, [7u8; 512]);
    let slots = state.apply_partial(3, "s".to_string(), DmxProtocol::Sacn, &[1]);
    assert_eq!(slots[0], 1);
    assert_eq!(slots[1], 7);
    assert_eq!(slots[511], 7);
}

#[test]
fn each_slot_holds_the_last_value_written_to_it() {
    let mut state = DmxStateStore::new();
    let partials: [&[u8]; 4] = [&[1, 1, 1, 1], &[2, 2], &[], &[3]];
    let mut image = [0u8; 512];
    for partial in partials {
        image = state.apply_partial(9, "src".to_string(), DmxProtocol::ArtNet, partial);
    }
    assert_eq!(&image[..5], &[3, 2, 1, 1, 0]);
    assert!(image[5..].iter().all(|v| *v == 0));
}

#[test]
fn frame_log_keeps_arrival_order_per_universe() {
    let mut store = DmxStore::new();
    for (universe, ts, source, protocol) in [
        (1u16, Some(5u64), "a", DmxProtocol::ArtNet),
        (2, Some(6), "a", DmxProtocol::ArtNet),
        (1, None, "b", DmxProtocol::ArtNet),
        (1, Some(8), "a", DmxProtocol::Sacn),
        (1, Some(9), "a", DmxProtocol::ArtNet),
    ] {
        store.push(DmxFrame {
            universe,
            timestamp: ts,
            source_id: source.to_string(),
            protocol,
            slots: [0u8; 512],
        });
    }
    let frames = store.frames_for_universe(1, DmxProtocol::ArtNet);
    let times: Vec<Option<u64>> = frames.iter().map(|f| f.timestamp).collect();
    assert_eq!(times, vec![Some(5), None, Some(9)]);
    let of_a = store.frames_for(1, "a").unwrap();
    let times: Vec<Option<u64>> = of_a.iter().map(|f| f.timestamp).collect();
    assert_eq!(times, vec![Some(5), Some(8), Some(9)]);
    assert!(store.frames_for(3, "a").is_none());
    assert!(store.frames_for_universe(2, DmxProtocol::Sacn).is_empty());
}

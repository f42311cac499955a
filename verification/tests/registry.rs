use orbshred::clock::{instant_after_origin, Instant};
use orbshred::registry::{
    DropCounters, GrpcLatencyEvent, Registry, ShredEvent, SlotEvent, SourceId,
};
use orbshred::shred::{ShredKey, ShredType};

fn key(slot: u64, index: u32) -> ShredKey {
    ShredKey { slot, index, shred_type: ShredType::Data }
}

fn now() -> Instant {
    Instant { nanos: 1_000_000_000 }
}

fn micros(at: Instant, delta: i128) -> Instant {
    Instant { nanos: at.nanos + delta * 1_000 }
}

fn millis(at: Instant, delta: i128) -> Instant {
    micros(at, delta * 1_000)
}

#[test]
fn first_arrival_sets_first_seen_and_first_source() {
    let mut reg = Registry::new();
    let t0 = now();
    let k = key(100, 0);
    reg.record_shred(ShredEvent { source: SourceId(1), key: k, received_at: t0 });

    let rec = reg.shred_record(&k).unwrap();
    assert_eq!(rec.first_source, SourceId(1));
    assert_eq!(rec.first_seen, t0);
    assert_eq!(rec.arrivals.len(), 1);
    assert_eq!(rec.arrivals[0], (SourceId(1), t0));
}

#[test]
fn duplicate_from_same_source_appends_without_touching_first_seen() {
    let mut reg = Registry::new();
    let t0 = now();
    let t1 = micros(t0, 50);
    let k = key(100, 0);

    reg.record_shred(ShredEvent { source: SourceId(1), key: k, received_at: t0 });
    reg.record_shred(ShredEvent { source: SourceId(1), key: k, received_at: t1 });

    let rec = reg.shred_record(&k).unwrap();
    assert_eq!(rec.first_seen, t0, "first_seen must not change on duplicate");
    assert_eq!(rec.first_source, SourceId(1));
    assert_eq!(rec.arrivals.len(), 2);
}

#[test]
fn second_source_appends_arrival() {
    let mut reg = Registry::new();
    let t0 = now();
    let t1 = micros(t0, 20);
    let k = key(100, 0);

    reg.record_shred(ShredEvent { source: SourceId(1), key: k, received_at: t0 });
    reg.record_shred(ShredEvent { source: SourceId(2), key: k, received_at: t1 });

    let rec = reg.shred_record(&k).unwrap();
    assert_eq!(rec.first_source, SourceId(1));
    assert_eq!(rec.first_seen, t0);
    assert_eq!(rec.arrivals.len(), 2);
    assert!(rec.arrivals.contains(&(SourceId(1), t0)));
    assert!(rec.arrivals.contains(&(SourceId(2), t1)));
}

#[test]
fn slot_first_shred_tracks_earliest_arrival() {
    let mut reg = Registry::new();
    let t0 = now();
    let t_later = millis(t0, 2);
    let t_earlier = millis(t0, -1);

    // Insert later first, then earlier: first_shred_at must shrink to the earliest.
    reg.record_shred(ShredEvent { source: SourceId(1), key: key(100, 0), received_at: t_later });
    reg.record_shred(ShredEvent { source: SourceId(2), key: key(100, 1), received_at: t_earlier });

    let slot = reg.slot_record(100).unwrap();
    assert_eq!(slot.first_shred_at, t_earlier);
}

#[test]
fn slot_first_shred_does_not_move_later() {
    let mut reg = Registry::new();
    let t0 = now();
    let t_later = millis(t0, 5);

    reg.record_shred(ShredEvent { source: SourceId(1), key: key(100, 0), received_at: t0 });
    reg.record_shred(ShredEvent { source: SourceId(1), key: key(100, 1), received_at: t_later });

    let slot = reg.slot_record(100).unwrap();
    assert_eq!(slot.first_shred_at, t0);
}

#[test]
fn record_slot_event_inserts_then_updates_to_earlier() {
    let mut reg = Registry::new();
    let t0 = now();
    let t_later = millis(t0, 10);
    let t_earlier = millis(t0, -1);

    // Initial insert (no shred event yet, so first_shred_at = received_at).
    reg.record_slot_event(SlotEvent { source: SourceId(9), slot: 200, received_at: t_later });
    // Same source with earlier instant: should overwrite the stored arrival.
    reg.record_slot_event(SlotEvent { source: SourceId(9), slot: 200, received_at: t_earlier });
    // Later instant from same source: must NOT overwrite.
    reg.record_slot_event(SlotEvent { source: SourceId(9), slot: 200, received_at: t_later });

    let slot = reg.slot_record(200).unwrap();
    let entry = slot.entry_arrivals.iter().find(|(s, _)| *s == SourceId(9)).unwrap();
    assert_eq!(entry.1, t_earlier);
    assert_eq!(slot.entry_arrivals.len(), 1, "same source must not duplicate");
}

#[test]
fn record_slot_event_separate_sources_both_recorded() {
    let mut reg = Registry::new();
    let t0 = now();

    reg.record_slot_event(SlotEvent { source: SourceId(9), slot: 200, received_at: t0 });
    reg.record_slot_event(SlotEvent {
        source: SourceId(10),
        slot: 200,
        received_at: millis(t0, 3),
    });

    let slot = reg.slot_record(200).unwrap();
    assert_eq!(slot.entry_arrivals.len(), 2);
}

#[test]
fn record_grpc_latency_accumulates_per_source() {
    let mut reg = Registry::new();
    reg.record_grpc_latency(GrpcLatencyEvent { source: SourceId(7), latency_ns: 1_000 });
    reg.record_grpc_latency(GrpcLatencyEvent { source: SourceId(7), latency_ns: 2_500 });
    reg.record_grpc_latency(GrpcLatencyEvent { source: SourceId(8), latency_ns: 500 });

    let s7 = reg.latency_samples(SourceId(7)).unwrap();
    assert_eq!(s7.as_slice(), &[1_000u64, 2_500u64]);
    let s8 = reg.latency_samples(SourceId(8)).unwrap();
    assert_eq!(s8.as_slice(), &[500u64]);
}

#[test]
fn an_empty_registry_holds_nothing() {
    let reg = Registry::new();
    assert_eq!(reg.start_time, reg.clock_anchor.instant);
    assert!(reg.shred_record(&key(1, 0)).is_none());
    assert!(reg.slot_record(1).is_none());
    assert!(reg.latency_samples(SourceId(0)).is_none());
    assert!(reg.clock.now().nanos >= reg.start_time.nanos);
}

#[test]
fn data_and_code_shreds_have_records_of_their_own() {
    let mut reg = Registry::new();
    let data = key(5, 3);
    let code = ShredKey { slot: 5, index: 3, shred_type: ShredType::Code };
    reg.record_shred(ShredEvent { source: SourceId(1), key: data, received_at: now() });
    assert!(reg.shred_record(&code).is_none());
    reg.record_shred(ShredEvent { source: SourceId(2), key: code, received_at: now() });
    assert_eq!(reg.shred_record(&data).unwrap().first_source, SourceId(1));
    assert_eq!(reg.shred_record(&code).unwrap().first_source, SourceId(2));
    assert_eq!(data.to_parts(), (5, 3, true));
    assert_eq!(code.to_parts(), (5, 3, false));
}

#[test]
fn first_shred_replaces_the_moment_of_an_entry_event() {
    let mut reg = Registry::new();
    let t0 = now();
    let shred = |index, at| ShredEvent { source: SourceId(1), key: key(7, index), received_at: at };
    reg.record_slot_event(SlotEvent { source: SourceId(4), slot: 7, received_at: t0 });
    let slot = reg.slot_record(7).unwrap();
    assert_eq!(slot.first_shred_at, t0);
    assert!(!slot.shred_seen);

    reg.record_shred(shred(0, millis(t0, 5)));
    let slot = reg.slot_record(7).unwrap();
    assert_eq!(slot.first_shred_at, millis(t0, 5));
    assert!(slot.shred_seen);

    reg.record_shred(shred(1, millis(t0, 9)));
    reg.record_slot_event(SlotEvent { source: SourceId(5), slot: 7, received_at: millis(t0, -8) });
    assert_eq!(reg.slot_record(7).unwrap().first_shred_at, millis(t0, 5));

    reg.record_shred(shred(2, millis(t0, -1)));
    let slot = reg.slot_record(7).unwrap();
    assert_eq!(slot.first_shred_at, millis(t0, -1));
    assert_eq!(slot.entry_arrivals, vec![(SourceId(4), t0), (SourceId(5), millis(t0, -8))]);
}

#[test]
fn entry_sources_keep_their_order_and_repeats_change_nothing() {
    let mut reg = Registry::new();
    let t0 = now();
    for source in [8, 3, 8, 5, 3] {
        reg.record_slot_event(SlotEvent { source: SourceId(source), slot: 1, received_at: t0 });
    }
    let order: Vec<u32> =
        reg.slot_record(1).unwrap().entry_arrivals.iter().map(|(source, _)| source.0).collect();
    assert_eq!(order, vec![8, 3, 5]);
}

#[test]
fn records_can_be_walked() {
    let mut reg = Registry::new();
    assert!(reg.shred_keys().is_empty());
    assert!(reg.slot_numbers().is_empty());
    assert!(reg.latency_sources().is_empty());
    let code = ShredKey { slot: 2, index: 1, shred_type: ShredType::Code };
    for k in [key(2, 1), code, key(9, 0), key(2, 1)] {
        reg.record_shred(ShredEvent { source: SourceId(1), key: k, received_at: now() });
    }
    for source in [6, 4, 6] {
        reg.record_grpc_latency(GrpcLatencyEvent { source: SourceId(source), latency_ns: 1 });
    }
    let keys = reg.shred_keys();
    assert_eq!(keys.len(), 3);
    assert!(keys.contains(&key(2, 1)) && keys.contains(&code) && keys.contains(&key(9, 0)));
    let mut slots = reg.slot_numbers();
    slots.sort();
    assert_eq!(slots, vec![2, 9]);
    let mut sources = reg.latency_sources();
    sources.sort();
    assert_eq!(sources, vec![SourceId(4), SourceId(6)]);
    assert_eq!(ShredKey::from_parts((2, 1, false)), code);
}

#[test]
fn drop_counters_count_per_source() {
    let mut drops = DropCounters::new();
    assert_eq!(drops.get(SourceId(1)), 0);
    drops.inc(SourceId(1));
    drops.inc(SourceId(1));
    drops.inc(SourceId(2));
    assert_eq!(drops.get(SourceId(1)), 2);
    assert_eq!(drops.get(SourceId(2)), 1);
    assert_eq!(drops.get(SourceId(3)), 0);
    drops.note_send(SourceId(3), true);
    assert_eq!(drops.get(SourceId(3)), 0);
    drops.note_send(SourceId(3), false);
    assert_eq!(drops.get(SourceId(3)), 1);
    assert_eq!(DropCounters::default().get(SourceId(1)), 0);
}

#[test]
fn instants_count_from_the_origin() {
    assert_eq!(instant_after_origin(2, 5).nanos, 2_000_000_005);
    assert!(instant_after_origin(1, 0).is_before(instant_after_origin(1, 1)));
    assert!(!instant_after_origin(1, 1).is_before(instant_after_origin(1, 1)));
}

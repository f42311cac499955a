use orbshred::clock::{Instant, MonotonicClock};
use orbshred::registry::SourceId;
use orbshred::shred::{ShredKey, ShredType};
use orbshred::sources::kernel_ts::{
    find_control_message, realtime_ns_now, realtime_ns_of, received_at, signed_epoch_nanos,
    BatchRecv, ClockAnchor, ControlHeader, Timespec,
};
use orbshred::sources::udp::{
    batch_events, batch_outcome, datagram_event, is_timeout, RecvErrorKind,
};

fn anchor() -> ClockAnchor {
    ClockAnchor {
        instant: Instant { nanos: 5_000 },
        realtime_ns: 1_700_000_000_000_000_000,
    }
}

#[test]
fn anchor_converts_itself_and_keeps_distances() {
    let a = anchor();
    assert_eq!(a.instant_from_realtime_ns(a.realtime_ns), a.instant);
    assert_eq!(a.instant_from_realtime_ns(a.realtime_ns + 250).nanos, 5_250);
    assert_eq!(a.instant_from_realtime_ns(a.realtime_ns - 7_000).nanos, -2_000);
}

#[test]
fn distances_wrap_like_durations() {
    let a = anchor();
    let span = 1i128 << 64;
    assert_eq!(a.instant_from_realtime_ns(a.realtime_ns + span + 3).nanos, 5_003);
    assert_eq!(a.instant_from_realtime_ns(a.realtime_ns - span - 3).nanos, 4_997);
}

#[test]
fn moments_too_early_become_the_anchors() {
    let a = ClockAnchor { instant: Instant { nanos: i128::MIN + 10 }, realtime_ns: 0 };
    assert_eq!(a.instant_from_realtime_ns(-10).nanos, i128::MIN);
    assert_eq!(a.instant_from_realtime_ns(-11), a.instant);
}

#[test]
fn unrepresentable_distances_are_told_beforehand() {
    let a = anchor();
    assert!(a.is_convertible(0));
    assert!(a.is_convertible(i128::MAX));
    assert!(!a.is_convertible(i128::MIN));
    let far = ClockAnchor::at(0, Instant { nanos: i128::MAX - 5 });
    assert!(far.is_convertible(5));
    assert!(!far.is_convertible(6));
    assert!(far.is_convertible(-6));
    assert!(far.is_convertible(1 << 64));
    assert!(!far.is_convertible(i128::MIN));
}

#[test]
fn capture_reads_both_clocks() {
    let clock = MonotonicClock::start();
    let before = realtime_ns_now();
    let anchor = ClockAnchor::capture(&clock);
    let after = realtime_ns_now();
    assert!(anchor.instant.nanos >= 0);
    // Later than the year 2001, so that it is no distance from some other origin.
    assert!(before > 1_000_000_000_000_000_000);
    assert!(anchor.realtime_ns >= before && anchor.realtime_ns <= after);
    assert!(clock.now().nanos >= anchor.instant.nanos);
}

#[test]
fn moments_count_from_the_clocks_origin() {
    let origin = std::time::Instant::now();
    let clock = MonotonicClock::counting_from(origin);
    let later = origin + std::time::Duration::new(2, 500_000_007);
    assert_eq!(clock.moment_of(origin), Instant { nanos: 0 });
    assert_eq!(clock.moment_of(later), Instant { nanos: 2_500_000_007 });
    // A reading before the origin counts as the origin.
    let shifted = MonotonicClock::counting_from(later);
    assert_eq!(shifted.moment_of(origin), Instant { nanos: 0 });
    let early = clock.now();
    let between = clock.moment_of(std::time::Instant::now());
    let late = clock.now();
    assert!(early.nanos <= between.nanos && between.nanos <= late.nanos);
}

#[test]
fn the_monotonic_clock_advances() {
    let clock = MonotonicClock::start();
    let first = clock.now();
    let mut second = clock.now();
    while !first.is_before(second) {
        second = clock.now();
    }
    assert!(second.nanos > 0);
}

#[test]
fn realtime_readings_are_signed() {
    assert_eq!(signed_epoch_nanos(Ok((2, 3))), 2_000_000_003);
    assert_eq!(signed_epoch_nanos(Err((2, 3))), -2_000_000_003);
    assert_eq!(Timespec { tv_sec: -1, tv_nsec: 5 }.as_nanos(), -999_999_995);
}

#[test]
fn system_times_count_from_the_epoch() {
    let epoch = std::time::UNIX_EPOCH;
    let distance = std::time::Duration::new(3, 7);
    assert_eq!(realtime_ns_of(epoch), 0);
    assert_eq!(realtime_ns_of(epoch + distance), 3_000_000_007);
    assert_eq!(realtime_ns_of(epoch - distance), -3_000_000_007);
}

#[test]
fn missing_kernel_timestamp_falls_back() {
    let a = anchor();
    let now = Instant { nanos: 42 };
    assert_eq!(received_at(&a, None, now), now);
    let stamp = Timespec { tv_sec: 1_700_000_000, tv_nsec: 900 };
    assert_eq!(received_at(&a, Some(stamp), now).nanos, 5_900);
}

#[test]
fn first_matching_control_message_is_taken() {
    let header = |level, kind| ControlHeader { level, kind };
    let headers = [header(0, 35), header(1, 34), header(1, 35), header(1, 35)];
    assert_eq!(find_control_message(&headers, 1, 35), Some(2));
    assert_eq!(find_control_message(&headers, 2, 35), None);
    assert_eq!(find_control_message(&[], 1, 35), None);
}

fn first_byte_key(datagram: &[u8]) -> Option<ShredKey> {
    if datagram.is_empty() {
        None
    } else {
        Some(ShredKey { slot: datagram[0] as u64, index: datagram.len() as u32, shred_type: ShredType::Code })
    }
}

#[test]
fn batches_yield_one_event_per_shred() {
    let mut batch = BatchRecv::new(4, 16);
    assert_eq!(batch.bufs.len(), 4);
    assert_eq!(batch.bufs[3], vec![0u8; 16]);
    assert_eq!(batch.frame(0), &[] as &[u8]);
    batch.bufs[0][..2].copy_from_slice(&[7, 8]);
    batch.bufs[2][0] = 9;
    let stamp = Timespec { tv_sec: 1_700_000_000, tv_nsec: 100 };
    batch.note_batch(&[(2, Some(stamp)), (0, None), (1, None)]);
    assert_eq!(batch.frame(0), &[7, 8]);

    let clock = MonotonicClock::start();
    let start = clock.now();
    let events = batch_events(&batch, 3, SourceId(6), &anchor(), &clock, first_byte_key);
    assert_eq!(events.len(), 2);
    assert_eq!(events[0].key.slot, 7);
    assert_eq!(events[0].key.index, 2);
    assert_eq!(events[0].source, SourceId(6));
    assert_eq!(events[0].received_at.nanos, 5_100);
    assert_eq!(events[1].key.slot, 9);
    assert!(events[1].received_at.nanos >= start.nanos);
    assert!(events[1].received_at.nanos <= clock.now().nanos);

    let at = batch.timestamp(0, &anchor(), Instant { nanos: 1 });
    assert_eq!(at.nanos, 5_100);
    assert_eq!(batch.timestamp(1, &anchor(), Instant { nanos: 1 }).nanos, 1);
    assert!(batch_events(&batch, 0, SourceId(6), &anchor(), &clock, first_byte_key).is_empty());
}

#[test]
fn a_new_batch_empties_the_slots_it_does_not_fill() {
    let mut batch = BatchRecv::new(3, 8);
    let stamp = Some(Timespec { tv_sec: 1_700_000_000, tv_nsec: 0 });
    for buf in batch.bufs.iter_mut() {
        buf[..2].copy_from_slice(&[1, 2]);
    }
    let full = [(2, stamp), (1, stamp), (2, None)];
    assert_eq!(batch.recvmmsg(3, RecvErrorKind::Other, &full), Ok(3));
    assert_eq!(batch.frame(0), &[1, 2]);
    assert_eq!(batch.frame(1), &[1]);
    assert_eq!(batch.frame(2), &[1, 2]);

    assert_eq!(batch.recvmmsg(1, RecvErrorKind::Other, &[(2, None)]), Ok(1));
    assert_eq!(batch.frame(0), &[1, 2]);
    assert!(batch.frame(1).is_empty() && batch.frame(2).is_empty());
    let now = Instant { nanos: 3 };
    assert_eq!(batch.timestamp(1, &anchor(), now), now);

    assert_eq!(batch.recvmmsg(-1, RecvErrorKind::TimedOut, &[]), Ok(0));
    assert!(batch.frame(0).is_empty());
    let failed = batch.recvmmsg(-1, RecvErrorKind::Other, &[]);
    assert_eq!(failed, Err(RecvErrorKind::Other));
}

#[test]
fn single_datagrams_are_cut_to_their_length() {
    let now = Instant { nanos: 12 };
    let event = datagram_event(SourceId(3), &[5, 6, 7, 8], 3, now, first_byte_key).unwrap();
    assert_eq!(event.key.index, 3);
    assert_eq!(event.received_at, now);
    assert!(datagram_event(SourceId(3), &[5, 6], 0, now, first_byte_key).is_none());
}

#[test]
fn timeouts_are_no_failures() {
    assert!(is_timeout(RecvErrorKind::WouldBlock));
    assert!(is_timeout(RecvErrorKind::TimedOut));
    assert!(!is_timeout(RecvErrorKind::Other));
    assert_eq!(batch_outcome(5, RecvErrorKind::Other), Ok(5));
    assert_eq!(batch_outcome(-1, RecvErrorKind::WouldBlock), Ok(0));
    assert_eq!(batch_outcome(-1, RecvErrorKind::TimedOut), Ok(0));
    assert_eq!(batch_outcome(-1, RecvErrorKind::Other), Err(RecvErrorKind::Other));
}

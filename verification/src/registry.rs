//! The registry of arrivals: which source delivered which shred and which slot
//! when, and the counters of what was dropped on the way.
use dashmap::DashMap;
use vstd::prelude::*;

use crate::clock::{Instant, MonotonicClock};
use crate::shred;
use crate::shred::ShredKey;
use crate::sources::kernel_ts;
use crate::sources::kernel_ts::{ClockAnchor, Timespec};
use crate::store;

verus! {

/// Dynamic source identifier, assigned sequentially at startup.
#[derive(Clone, Copy, Debug, PartialEq, Eq, Hash, PartialOrd, Ord, Default, Structural)]
pub struct SourceId(pub u32);

/// Event from a shred-level source (raw UDP, Jito UDP, packet capture).
#[derive(Clone, Copy, Debug)]
pub struct ShredEvent {
    pub source: SourceId,
    pub key: ShredKey,
    pub received_at: Instant,
}

/// Event from an entry/slot-level source (Jito gRPC entries).
#[derive(Clone, Copy, Debug)]
pub struct SlotEvent {
    pub source: SourceId,
    pub slot: u64,
    pub received_at: Instant,
}

/// A single gRPC overhead sample: time from entry processed to account update
/// delivered.
#[derive(Clone, Copy, Debug)]
pub struct GrpcLatencyEvent {
    pub source: SourceId,
    pub latency_ns: u64,
}

/// Per-shred record in the registry.
#[derive(Debug)]
pub struct ShredRecord {
    pub first_seen: Instant,
    pub first_source: SourceId,
    /// All arrivals in the order in which they were recorded. May have several from
    /// the same source (duplicates).
    pub arrivals: Vec<(SourceId, Instant)>,
}

/// Per-slot record.
#[derive(Debug)]
pub struct SlotRecord {
    /// Earliest arrival across all shred-level sources. Until a shred has arrived, the
    /// moment of the entry-level event that opened the record stands in for it.
    pub first_shred_at: Instant,
    /// Whether a shred of the slot has arrived.
    pub shred_seen: bool,
    /// First arrival per entry-level source.
    pub entry_arrivals: Vec<(SourceId, Instant)>,
}

/// What a [`ShredRecord`] holds.
#[verifier::ext_equal]
pub struct ShredRecordView {
    pub first_seen: Instant,
    pub first_source: SourceId,
    pub arrivals: Seq<(SourceId, Instant)>,
}

/// What a [`SlotRecord`] holds.
#[verifier::ext_equal]
pub struct SlotRecordView {
    pub first_shred_at: Instant,
    pub shred_seen: bool,
    pub entry_arrivals: Seq<(SourceId, Instant)>,
}

impl View for ShredRecord {
    type V = ShredRecordView;

    open spec fn view(&self) -> ShredRecordView {
        ShredRecordView {
            first_seen: self.first_seen,
            first_source: self.first_source,
            arrivals: self.arrivals@,
        }
    }
}

impl View for SlotRecord {
    type V = SlotRecordView;

    open spec fn view(&self) -> SlotRecordView {
        SlotRecordView {
            first_shred_at: self.first_shred_at,
            shred_seen: self.shred_seen,
            entry_arrivals: self.entry_arrivals@,
        }
    }
}

/// The earlier of two moments.
pub open spec fn earlier(left: Instant, right: Instant) -> Instant {
    if right.nanos < left.nanos {
        right
    } else {
        left
    }
}

/// A shred's record after one more arrival.
pub open spec fn shred_noted(
    record: Option<ShredRecordView>,
    source: SourceId,
    at: Instant,
) -> ShredRecordView {
    match record {
        Some(known) => ShredRecordView { arrivals: known.arrivals.push((source, at)), ..known },
        None => ShredRecordView { first_seen: at, first_source: source, arrivals: seq![(source, at)] },
    }
}

/// A slot's record after a shred of it arrived: the first one takes the place of a
/// stand-in, however early that was.
pub open spec fn slot_shred_noted(record: Option<SlotRecordView>, at: Instant) -> SlotRecordView {
    match record {
        Some(known) => SlotRecordView {
            first_shred_at: if known.shred_seen {
                earlier(known.first_shred_at, at)
            } else {
                at
            },
            shred_seen: true,
            ..known
        },
        None => SlotRecordView {
            first_shred_at: at,
            shred_seen: true,
            entry_arrivals: Seq::empty(),
        },
    }
}

/// Index of the first arrival from `source` at or after `from`.
pub open spec fn find_source(arrivals: Seq<(SourceId, Instant)>, source: SourceId, from: int) -> Option<int>
    decreases arrivals.len() - from,
{
    if from < 0 || from >= arrivals.len() {
        None
    } else if arrivals[from].0 == source {
        Some(from)
    } else {
        find_source(arrivals, source, from + 1)
    }
}

/// Per-source first arrivals after one more event: the source's arrival moves to
/// the earlier moment, and a source not yet known is added at the end.
pub open spec fn entries_noted(
    arrivals: Seq<(SourceId, Instant)>,
    source: SourceId,
    at: Instant,
) -> Seq<(SourceId, Instant)> {
    match find_source(arrivals, source, 0) {
        Some(i) => arrivals.update(i, (source, earlier(arrivals[i].1, at))),
        None => arrivals.push((source, at)),
    }
}

/// A slot's record after an entry-level event for it.
pub open spec fn slot_entry_noted(
    record: Option<SlotRecordView>,
    source: SourceId,
    at: Instant,
) -> SlotRecordView {
    match record {
        Some(known) => SlotRecordView {
            entry_arrivals: entries_noted(known.entry_arrivals, source, at),
            ..known
        },
        None => SlotRecordView {
            first_shred_at: at,
            shred_seen: false,
            entry_arrivals: seq![(source, at)],
        },
    }
}

impl ShredRecord {
    /// The record of a shred at its first arrival.
    fn first(source: SourceId, at: Instant) -> (record: ShredRecord)
        ensures
            record@ == shred_noted(None, source, at),
    {
        let mut arrivals: Vec<(SourceId, Instant)> = Vec::new();
        arrivals.push((source, at));
        ShredRecord { first_seen: at, first_source: source, arrivals }
    }

    /// Adds an arrival; the first one stays what it was.
    fn note(&mut self, source: SourceId, at: Instant)
        ensures
            final(self)@ == shred_noted(Some(old(self)@), source, at),
    {
        self.arrivals.push((source, at));
    }

    /// A record with the same contents.
    fn duplicate(&self) -> (copy: ShredRecord)
        ensures
            copy@ == self@,
    {
        ShredRecord {
            first_seen: self.first_seen,
            first_source: self.first_source,
            arrivals: copy_arrivals(&self.arrivals),
        }
    }
}

impl SlotRecord {
    /// The record of a slot that a shred opens.
    fn opened_by_shred(at: Instant) -> (record: SlotRecord)
        ensures
            record@ == slot_shred_noted(None, at),
    {
        SlotRecord { first_shred_at: at, shred_seen: true, entry_arrivals: Vec::new() }
    }

    /// The record of a slot that an entry-level event opens.
    fn opened_by_entry(source: SourceId, at: Instant) -> (record: SlotRecord)
        ensures
            record@ == slot_entry_noted(None, source, at),
    {
        let mut entry_arrivals: Vec<(SourceId, Instant)> = Vec::new();
        entry_arrivals.push((source, at));
        SlotRecord { first_shred_at: at, shred_seen: false, entry_arrivals }
    }

    /// Moves the earliest shred arrival to `at` if that is earlier, or the first.
    fn note_shred(&mut self, at: Instant)
        ensures
            final(self)@ == slot_shred_noted(Some(old(self)@), at),
    {
        if !self.shred_seen || at.is_before(self.first_shred_at) {
            self.first_shred_at = at;
        }
        self.shred_seen = true;
    }

    /// Moves the arrival of `source` to `at` if that is earlier, or adds it if the
    /// source is new.
    fn note_entry(&mut self, source: SourceId, at: Instant)
        ensures
            final(self)@ == slot_entry_noted(Some(old(self)@), source, at),
    {
        let ghost before = self.entry_arrivals@;
        let mut i: usize = 0;
        while i < self.entry_arrivals.len()
            invariant
                i <= self.entry_arrivals@.len(),
                self.entry_arrivals@ == before,
                self@ == old(self)@,
                before == old(self)@.entry_arrivals,
                find_source(before, source, i as int) == find_source(before, source, 0),
            decreases before.len() - i,
        {
            let (known, since) = self.entry_arrivals[i];
            if known == source {
                if at.is_before(since) {
                    self.entry_arrivals.set(i, (source, at));
                }
                assert(self@.entry_arrivals =~= entries_noted(before, source, at));
                return;
            }
            i = i + 1;
        }
        self.entry_arrivals.push((source, at));
    }

    /// A record with the same contents.
    fn duplicate(&self) -> (copy: SlotRecord)
        ensures
            copy@ == self@,
    {
        SlotRecord {
            first_shred_at: self.first_shred_at,
            shred_seen: self.shred_seen,
            entry_arrivals: copy_arrivals(&self.entry_arrivals),
        }
    }
}

/// A vector with the same arrivals.
fn copy_arrivals(arrivals: &Vec<(SourceId, Instant)>) -> (copy: Vec<(SourceId, Instant)>)
    ensures
        copy@ == arrivals@,
{
    let mut copy: Vec<(SourceId, Instant)> = Vec::new();
    let mut i: usize = 0;
    while i < arrivals.len()
        invariant
            i <= arrivals@.len(),
            copy@ == arrivals@.take(i as int),
        decreases arrivals@.len() - i,
    {
        copy.push(arrivals[i]);
        i = i + 1;
        assert(copy@ =~= arrivals@.take(i as int));
    }
    assert(arrivals@.take(i as int) =~= arrivals@);
    copy
}

/// A vector with the same samples.
fn copy_samples(samples: &Vec<u64>) -> (copy: Vec<u64>)
    ensures
        copy@ == samples@,
{
    let mut copy: Vec<u64> = Vec::new();
    let mut i: usize = 0;
    while i < samples.len()
        invariant
            i <= samples@.len(),
            copy@ == samples@.take(i as int),
        decreases samples@.len() - i,
    {
        copy.push(samples[i]);
        i = i + 1;
        assert(copy@ =~= samples@.take(i as int));
    }
    assert(samples@.take(i as int) =~= samples@);
    copy
}

/// What the registry has recorded: shreds by the parts of their key, slots by
/// number, latency samples by source number.
#[verifier::ext_equal]
pub struct RegistryView {
    pub shreds: Map<(u64, u32, bool), ShredRecordView>,
    pub slots: Map<u64, SlotRecordView>,
    pub grpc_latencies: Map<u32, Seq<u64>>,
}

/// One thing for the registry to record.
pub enum Event {
    Shred(ShredEvent),
    Slot(SlotEvent),
    GrpcLatency(GrpcLatencyEvent),
}

/// A registry that has recorded nothing.
pub open spec fn nothing_recorded() -> RegistryView {
    RegistryView { shreds: Map::empty(), slots: Map::empty(), grpc_latencies: Map::empty() }
}

/// What the registry holds after one more event.
pub open spec fn recorded(before: RegistryView, event: Event) -> RegistryView {
    match event {
        Event::Shred(shred) => RegistryView {
            shreds: before.shreds.insert(
                shred.key.parts(),
                shred_noted(
                    before.shreds.get(shred.key.parts()),
                    shred.source,
                    shred.received_at,
                ),
            ),
            slots: before.slots.insert(
                shred.key.slot,
                slot_shred_noted(before.slots.get(shred.key.slot), shred.received_at),
            ),
            ..before
        },
        Event::Slot(slot) => RegistryView {
            slots: before.slots.insert(
                slot.slot,
                slot_entry_noted(before.slots.get(slot.slot), slot.source, slot.received_at),
            ),
            ..before
        },
        Event::GrpcLatency(sample) => RegistryView {
            grpc_latencies: before.grpc_latencies.insert(
                sample.source.0,
                match before.grpc_latencies.get(sample.source.0) {
                    Some(samples) => samples.push(sample.latency_ns),
                    None => seq![sample.latency_ns],
                },
            ),
            ..before
        },
    }
}

/// The maps in which the registry keeps its records.
pub struct Records {
    shreds: DashMap<(u64, u32, bool), ShredRecord>,
    slots: DashMap<u64, SlotRecord>,
    grpc_latencies: DashMap<u32, Vec<u64>>,
}

impl View for Records {
    type V = RegistryView;

    closed spec fn view(&self) -> RegistryView {
        RegistryView {
            shreds: store::shred_contents(self.shreds),
            slots: store::slot_contents(self.slots),
            grpc_latencies: store::latency_contents(self.grpc_latencies),
        }
    }
}

/// Records arrivals of shreds, slots and latency samples.
pub struct Registry {
    pub records: Records,
    pub start_time: Instant,
    /// The time line on which the registry's instants lie.
    pub clock: MonotonicClock,
    /// Shared anchor for converting kernel `CLOCK_REALTIME` timestamps into
    /// [`Instant`]s compatible with `start_time` and per-shred arrivals.
    pub clock_anchor: ClockAnchor,
}

impl View for Registry {
    type V = RegistryView;

    open spec fn view(&self) -> RegistryView {
        self.records@
    }
}

impl Registry {
    /// `self` and `other` agree on everything but what they have recorded.
    pub open spec fn same_clocks(self, other: Registry) -> bool {
        &&& self.start_time == other.start_time
        &&& self.clock == other.clock
        &&& self.clock_anchor == other.clock_anchor
    }

    /// An empty registry, whose time starts now: its anchor pairs a reading of the system
    /// clock with a moment on the registry's own time line.
    pub fn new() -> (registry: Registry)
        ensures
            registry@ == nothing_recorded(),
            registry.start_time == registry.clock_anchor.instant,
            registry.clock.shows(registry.clock_anchor.instant),
            kernel_ts::shows_realtime(registry.clock_anchor.realtime_ns as int),
            forall|ts: Timespec| #[trigger] registry.clock_anchor.can_convert(ts.nanos()),
    {
        let clock = MonotonicClock::start();
        let clock_anchor = ClockAnchor::capture(&clock);
        Registry {
            records: Records {
                shreds: store::shred_new(),
                slots: store::slot_new(),
                grpc_latencies: store::latency_new(),
            },
            start_time: clock_anchor.instant,
            clock,
            clock_anchor,
        }
    }

    /// Adds a latency sample to those of its source.
    pub fn record_grpc_latency(&mut self, event: GrpcLatencyEvent)
        ensures
            final(self)@ == recorded(old(self)@, Event::GrpcLatency(event)),
            final(self).same_clocks(*old(self)),
    {
        let sample = event.latency_ns;
        let add = |samples: &mut Vec<u64>|
            ensures
                final(samples)@ == old(samples)@.push(sample),
            {
                samples.push(sample);
            };
        let start = || -> (samples: Vec<u64>)
            ensures
                samples@ == seq![sample],
            {
                let mut samples: Vec<u64> = Vec::new();
                samples.push(sample);
                samples
            };
        store::latency_entry(&mut self.records.grpc_latencies, event.source.0, add, start);
    }

    /// Records an arrival of a shred, and tracks the earliest shred arrival of its
    /// slot.
    pub fn record_shred(&mut self, event: ShredEvent)
        ensures
            final(self)@ == recorded(old(self)@, Event::Shred(event)),
            final(self).same_clocks(*old(self)),
    {
        let source = event.source;
        let at = event.received_at;
        let add = |record: &mut ShredRecord|
            ensures
                final(record)@ == shred_noted(Some(old(record)@), source, at),
            {
                record.note(source, at);
            };
        let start = || -> (record: ShredRecord)
            ensures
                record@ == shred_noted(None, source, at),
            { ShredRecord::first(source, at) };
        store::shred_entry(&mut self.records.shreds, event.key.to_parts(), add, start);

        let shrink = |record: &mut SlotRecord|
            ensures
                final(record)@ == slot_shred_noted(Some(old(record)@), at),
            {
                record.note_shred(at);
            };
        let open = || -> (record: SlotRecord)
            ensures
                record@ == slot_shred_noted(None, at),
            { SlotRecord::opened_by_shred(at) };
        store::slot_entry(&mut self.records.slots, event.key.slot, shrink, open);
    }

    /// Records an entry-level arrival for a slot: the earliest one of each source
    /// is kept.
    pub fn record_slot_event(&mut self, event: SlotEvent)
        ensures
            final(self)@ == recorded(old(self)@, Event::Slot(event)),
            final(self).same_clocks(*old(self)),
    {
        let source = event.source;
        let at = event.received_at;
        let add = |record: &mut SlotRecord|
            ensures
                final(record)@ == slot_entry_noted(Some(old(record)@), source, at),
            {
                record.note_entry(source, at);
            };
        let open = || -> (record: SlotRecord)
            ensures
                record@ == slot_entry_noted(None, source, at),
            { SlotRecord::opened_by_entry(source, at) };
        store::slot_entry(&mut self.records.slots, event.slot, add, open);
    }

    /// The record of a shred, if it has arrived.
    pub fn shred_record(&self, key: &ShredKey) -> (record: Option<ShredRecord>)
        ensures
            match record {
                Some(found) => self@.shreds.get(key.parts()) == Some(found@),
                None => self@.shreds.get(key.parts()) is None,
            },
    {
        let read = |_key: &(u64, u32, bool), record: &ShredRecord| -> (copy: ShredRecord)
            ensures
                copy@ == record@,
            { record.duplicate() };
        store::shred_view(&self.records.shreds, key.to_parts(), read)
    }

    /// The record of a slot, if anything of it has arrived.
    pub fn slot_record(&self, slot: u64) -> (record: Option<SlotRecord>)
        ensures
            match record {
                Some(found) => self@.slots.get(slot) == Some(found@),
                None => self@.slots.get(slot) is None,
            },
    {
        let read = |_slot: &u64, record: &SlotRecord| -> (copy: SlotRecord)
            ensures
                copy@ == record@,
            { record.duplicate() };
        store::slot_view(&self.records.slots, slot, read)
    }

    /// The latency samples of a source in the order in which they were recorded, if
    /// there are any.
    pub fn latency_samples(&self, source: SourceId) -> (samples: Option<Vec<u64>>)
        ensures
            match samples {
                Some(found) => self@.grpc_latencies.get(source.0) == Some(found@),
                None => self@.grpc_latencies.get(source.0) is None,
            },
    {
        let read = |_source: &u32, samples: &Vec<u64>| -> (copy: Vec<u64>)
            ensures
                copy@ == samples@,
            { copy_samples(samples) };
        store::latency_view(&self.records.grpc_latencies, source.0, read)
    }

    /// The shreds that have a record, each once, in no particular order.
    pub fn shred_keys(&self) -> (keys: Vec<ShredKey>)
        ensures
            keys@.no_duplicates(),
            forall|key: ShredKey|
                #[trigger] keys@.contains(key) <==> self@.shreds.dom().contains(key.parts()),
    {
        let parts: Vec<(u64, u32, bool)> = store::shred_keys(&self.records.shreds);
        let mut keys: Vec<ShredKey> = Vec::new();
        let mut i: usize = 0;
        while i < parts.len()
            invariant
                i <= parts@.len(),
                keys@.len() == i,
                forall|j: int| 0 <= j < i ==> (#[trigger] keys@[j]).parts() == parts@[j],
            decreases parts@.len() - i,
        {
            keys.push(ShredKey::from_parts(parts[i]));
            i = i + 1;
        }
        proof {
            assert forall|key: ShredKey| #[trigger] keys@.contains(key)
                <==> self@.shreds.dom().contains(key.parts()) by {
                if keys@.contains(key) {
                    let j = choose|j: int| 0 <= j < keys@.len() && keys@[j] == key;
                    assert(parts@[j] == key.parts());
                    assert(parts@.contains(key.parts()));
                }
                if parts@.contains(key.parts()) {
                    let j = choose|j: int| 0 <= j < parts@.len() && parts@[j] == key.parts();
                    shred::law_parts_identify_the_key(keys@[j], key);
                    assert(keys@[j] == key);
                }
            }
            assert forall|i: int, j: int|
                0 <= i < keys@.len() && 0 <= j < keys@.len() && i != j implies keys@[i]
                != keys@[j] by {
                assert(parts@[i] != parts@[j]);
            }
        }
        keys
    }

    /// The slots that have a record, each once, in no particular order.
    pub fn slot_numbers(&self) -> (slots: Vec<u64>)
        ensures
            slots@.no_duplicates(),
            forall|slot: u64|
                #[trigger] slots@.contains(slot) <==> self@.slots.dom().contains(slot),
    {
        store::slot_keys(&self.records.slots)
    }

    /// The sources that have latency samples, each once, in no particular order.
    pub fn latency_sources(&self) -> (sources: Vec<SourceId>)
        ensures
            sources@.no_duplicates(),
            forall|source: SourceId|
                #[trigger] sources@.contains(source) <==> self@.grpc_latencies.dom().contains(
                    source.0,
                ),
    {
        let numbers: Vec<u32> = store::latency_keys(&self.records.grpc_latencies);
        let mut sources: Vec<SourceId> = Vec::new();
        let mut i: usize = 0;
        while i < numbers.len()
            invariant
                i <= numbers@.len(),
                sources@.len() == i,
                forall|j: int| 0 <= j < i ==> (#[trigger] sources@[j]).0 == numbers@[j],
            decreases numbers@.len() - i,
        {
            sources.push(SourceId(numbers[i]));
            i = i + 1;
        }
        proof {
            assert forall|source: SourceId| #[trigger] sources@.contains(source)
                <==> self@.grpc_latencies.dom().contains(source.0) by {
                if sources@.contains(source) {
                    let j = choose|j: int| 0 <= j < sources@.len() && sources@[j] == source;
                    assert(numbers@[j] == source.0);
                    assert(numbers@.contains(source.0));
                }
                if numbers@.contains(source.0) {
                    let j = choose|j: int| 0 <= j < numbers@.len() && numbers@[j] == source.0;
                    assert(sources@[j] == source);
                }
            }
            assert forall|i: int, j: int|
                0 <= i < sources@.len() && 0 <= j < sources@.len() && i != j implies sources@[i]
                != sources@[j] by {
                assert(numbers@[i] != numbers@[j]);
            }
        }
        sources
    }
}

/// Per-source counter for events dropped due to bounded-channel backpressure.
pub struct DropCounters {
    inner: DashMap<u32, u64>,
}

impl View for DropCounters {
    type V = Map<u32, u64>;

    closed spec fn view(&self) -> Map<u32, u64> {
        store::count_contents(self.inner)
    }
}

/// The count of a source: zero if no drops were recorded.
pub open spec fn drop_count(counters: Map<u32, u64>, source: SourceId) -> u64 {
    match counters.get(source.0) {
        Some(count) => count,
        None => 0,
    }
}

/// The count that follows `count`: counters wrap around.
pub open spec fn next_count(count: u64) -> u64 {
    if count == u64::MAX {
        0
    } else {
        (count + 1) as u64
    }
}

/// The counters after an increment of `source`.
pub open spec fn incremented(counters: Map<u32, u64>, source: SourceId) -> Map<u32, u64> {
    counters.insert(source.0, next_count(drop_count(counters, source)))
}

impl DropCounters {
    /// Counters at zero.
    pub fn new() -> (counters: DropCounters)
        ensures
            counters@ == (Map::<u32, u64>::empty()),
    {
        DropCounters { inner: store::count_new() }
    }

    /// Increments the drop counter for `src` by 1.
    pub fn inc(&mut self, src: SourceId)
        ensures
            final(self)@ == incremented(old(self)@, src),
    {
        let add = |count: &mut u64|
            ensures
                *final(count) == next_count(*old(count)),
            {
                *count = count.wrapping_add(1);
            };
        let start = || -> (count: u64)
            ensures
                count == next_count(0),
            { 1 };
        store::count_entry(&mut self.inner, src.0, add, start);
    }

    /// Counts an event of `src` as dropped unless it was `sent`.
    pub fn note_send(&mut self, src: SourceId, sent: bool)
        ensures
            final(self)@ == (if sent {
                old(self)@
            } else {
                incremented(old(self)@, src)
            }),
    {
        if !sent {
            self.inc(src);
        }
    }

    /// Reads the current drop count for `src` (0 if no drops were recorded).
    pub fn get(&self, src: SourceId) -> (count: u64)
        ensures
            count == drop_count(self@, src),
    {
        let read = |_source: &u32, count: &u64| -> (copy: u64)
            ensures
                copy == *count,
            { *count };
        match store::count_view(&self.inner, src.0, read) {
            Some(count) => count,
            None => 0,
        }
    }
}

impl Default for DropCounters {
    /// Counters at zero.
    fn default() -> (counters: DropCounters)
        ensures
            counters@ == (Map::<u32, u64>::empty()),
    {
        DropCounters::new()
    }
}

} // verus!

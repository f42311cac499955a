//! What the registry holds, as a function of everything that was recorded.
use vstd::prelude::*;

use crate::clock::Instant;
use crate::registry;
use crate::registry::{
    Event, GrpcLatencyEvent, Registry, RegistryView, ShredEvent, ShredRecord, ShredRecordView,
    SlotEvent, SlotRecord, SourceId,
};
use crate::shred::ShredKey;

verus! {

/// What the registry holds once `events` have been recorded in order.
pub open spec fn replay(events: Seq<Event>) -> RegistryView
    decreases events.len(),
{
    if events.len() == 0 {
        registry::nothing_recorded()
    } else {
        registry::recorded(replay(events.drop_last()), events.last())
    }
}

/// The arrivals of the shred `key` among `events`, in order.
pub open spec fn shred_arrivals(events: Seq<Event>, key: ShredKey) -> Seq<(SourceId, Instant)>
    decreases events.len(),
{
    if events.len() == 0 {
        Seq::empty()
    } else {
        let earlier = shred_arrivals(events.drop_last(), key);
        match events.last() {
            Event::Shred(shred) if shred.key == key => earlier.push(
                (shred.source, shred.received_at),
            ),
            _ => earlier,
        }
    }
}

/// The latency samples of `source` among `events`, in order.
pub open spec fn latency_samples(events: Seq<Event>, source: SourceId) -> Seq<u64>
    decreases events.len(),
{
    if events.len() == 0 {
        Seq::empty()
    } else {
        let earlier = latency_samples(events.drop_last(), source);
        match events.last() {
            Event::GrpcLatency(sample) if sample.source == source => earlier.push(
                sample.latency_ns,
            ),
            _ => earlier,
        }
    }
}

/// `event` is the arrival of a shred of `slot`.
pub open spec fn is_shred_of(event: Event, slot: u64) -> bool {
    event matches Event::Shred(shred) && shred.key.slot == slot
}

/// `event` is an entry-level event of `source` for `slot`.
pub open spec fn is_entry_of(event: Event, slot: u64, source: SourceId) -> bool {
    event matches Event::Slot(entry) && entry.slot == slot && entry.source == source
}

/// `event` concerns `slot`.
pub open spec fn touches(event: Event, slot: u64) -> bool {
    is_shred_of(event, slot) || (event matches Event::Slot(entry) && entry.slot == slot)
}

/// The moment of a shred or slot event; a latency sample has none and gets zero.
pub open spec fn moment(event: Event) -> Instant {
    match event {
        Event::Shred(shred) => shred.received_at,
        Event::Slot(entry) => entry.received_at,
        Event::GrpcLatency(_) => Instant { nanos: 0 },
    }
}

/// No source occurs twice among `arrivals`.
pub open spec fn sources_distinct(arrivals: Seq<(SourceId, Instant)>) -> bool {
    forall|i: int, j: int|
        0 <= i < j < arrivals.len() ==> (#[trigger] arrivals[i]).0 != (#[trigger] arrivals[j]).0
}

/// Recording one more event extends the history by it.
pub proof fn law_recording_extends_the_history(events: Seq<Event>, event: Event)
    ensures
        registry::recorded(replay(events), event) == replay(events.push(event)),
{
    assert(events.push(event).drop_last() =~= events);
}

/// A shred's record is its history: every arrival in order, and the first of them
/// as first source and first moment. A shred that never arrived has no record.
pub proof fn law_shred_record_is_its_history(events: Seq<Event>, key: ShredKey)
    ensures
        replay(events).shreds.get(key.parts()) == ({
            let arrivals = shred_arrivals(events, key);
            if arrivals.len() == 0 {
                None
            } else {
                Some(
                    ShredRecordView {
                        first_seen: arrivals[0].1,
                        first_source: arrivals[0].0,
                        arrivals,
                    },
                )
            }
        }),
    decreases events.len(),
{
    if events.len() > 0 {
        law_shred_record_is_its_history(events.drop_last(), key);
        let before = shred_arrivals(events.drop_last(), key);
        match events.last() {
            Event::Shred(shred) => {
                crate::shred::law_parts_identify_the_key(shred.key, key);
                if before.len() == 0 {
                    assert(before.push((shred.source, shred.received_at)) =~= seq![
                        (shred.source, shred.received_at),
                    ]);
                }
            },
            _ => {},
        }
    }
}

/// A source's latency samples are kept in the order in which they came; a source
/// without samples has none.
pub proof fn law_latencies_accumulate_per_source(events: Seq<Event>, source: SourceId)
    ensures
        replay(events).grpc_latencies.get(source.0) == ({
            let samples = latency_samples(events, source);
            if samples.len() == 0 {
                None
            } else {
                Some(samples)
            }
        }),
    decreases events.len(),
{
    if events.len() > 0 {
        law_latencies_accumulate_per_source(events.drop_last(), source);
        let before = latency_samples(events.drop_last(), source);
        match events.last() {
            Event::GrpcLatency(sample) => {
                if before.len() == 0 {
                    assert(before.push(sample.latency_ns) =~= seq![sample.latency_ns]);
                }
            },
            _ => {},
        }
    }
}

/// Some shred of `slot` is among `events`.
pub open spec fn any_shred_of(events: Seq<Event>, slot: u64) -> bool {
    exists|i: int| 0 <= i < events.len() && is_shred_of(#[trigger] events[i], slot)
}

/// `at` is the earliest moment at which a shred of `slot` arrives among `events`.
pub open spec fn is_earliest_shred(events: Seq<Event>, slot: u64, at: Instant) -> bool {
    &&& forall|i: int|
        0 <= i < events.len() && is_shred_of(#[trigger] events[i], slot) ==> at.nanos <= moment(
            events[i],
        ).nanos
    &&& exists|i: int|
        {
            &&& 0 <= i < events.len()
            &&& is_shred_of(#[trigger] events[i], slot)
            &&& at == moment(events[i])
        }
}

/// `at` is the moment of the first among `events` that concerns `slot`.
pub open spec fn is_opening_moment(events: Seq<Event>, slot: u64, at: Instant) -> bool {
    exists|i: int|
        {
            &&& 0 <= i < events.len()
            &&& touches(#[trigger] events[i], slot)
            &&& at == moment(events[i])
            &&& forall|j: int| 0 <= j < i ==> !touches(#[trigger] events[j], slot)
        }
}

/// A slot has a record exactly when some event concerned it. Once a shred of it has
/// come, its first moment is the earliest over its shreds, whatever entry-level events
/// came before; until then it is the moment of the event that opened the record.
pub proof fn law_slot_tracks_earliest_shred(events: Seq<Event>, slot: u64)
    ensures
        match replay(events).slots.get(slot) {
            Some(record) => {
                &&& record.shred_seen <==> any_shred_of(events, slot)
                &&& if record.shred_seen {
                    is_earliest_shred(events, slot, record.first_shred_at)
                } else {
                    is_opening_moment(events, slot, record.first_shred_at)
                }
            },
            None => forall|i: int| 0 <= i < events.len() ==> !touches(#[trigger] events[i], slot),
        },
    decreases events.len(),
{
    if events.len() > 0 {
        let before = events.drop_last();
        let last = events.last();
        let end = events.len() - 1;
        law_slot_tracks_earliest_shred(before, slot);
        assert forall|i: int| 0 <= i < before.len() implies before[i] == #[trigger] events[i] by {}
        assert(events[end] == last);
        assert(any_shred_of(events, slot) <==> any_shred_of(before, slot) || is_shred_of(
            last,
            slot,
        )) by {
            if any_shred_of(before, slot) {
                let i = choose|i: int|
                    0 <= i < before.len() && is_shred_of(#[trigger] before[i], slot);
                assert(is_shred_of(events[i], slot));
            }
            if is_shred_of(last, slot) {
                assert(is_shred_of(events[end], slot));
            }
            if any_shred_of(events, slot) && !is_shred_of(last, slot) {
                let i = choose|i: int|
                    0 <= i < events.len() && is_shred_of(#[trigger] events[i], slot);
                assert(is_shred_of(before[i], slot));
            }
        }
        match replay(before).slots.get(slot) {
            Some(known) => {
                if known.shred_seen {
                    let i = choose|i: int|
                        {
                            &&& 0 <= i < before.len()
                            &&& is_shred_of(#[trigger] before[i], slot)
                            &&& known.first_shred_at == moment(before[i])
                        };
                    assert(is_shred_of(events[i], slot));
                } else {
                    assert forall|i: int| 0 <= i < before.len() implies !is_shred_of(
                        #[trigger] events[i],
                        slot,
                    ) by {
                        assert(!is_shred_of(before[i], slot));
                    }
                    let i = choose|i: int|
                        {
                            &&& 0 <= i < before.len()
                            &&& touches(#[trigger] before[i], slot)
                            &&& known.first_shred_at == moment(before[i])
                            &&& forall|j: int| 0 <= j < i ==> !touches(#[trigger] before[j], slot)
                        };
                    assert(touches(events[i], slot));
                    assert forall|j: int| 0 <= j < i implies !touches(
                        #[trigger] events[j],
                        slot,
                    ) by {
                        assert(!touches(before[j], slot));
                    }
                }
            },
            None => {
                assert forall|j: int| 0 <= j < end implies !touches(#[trigger] events[j], slot) by {
                    assert(!touches(before[j], slot));
                }
                if any_shred_of(before, slot) {
                    let i = choose|i: int|
                        0 <= i < before.len() && is_shred_of(#[trigger] before[i], slot);
                    assert(!touches(before[i], slot));
                }
                if touches(last, slot) {
                    assert(touches(events[end], slot));
                }
            },
        }
    }
}

/// What [`registry::find_source`] finds.
proof fn lemma_find_source(arrivals: Seq<(SourceId, Instant)>, source: SourceId, from: int)
    requires
        0 <= from <= arrivals.len(),
    ensures
        match registry::find_source(arrivals, source, from) {
            Some(i) => {
                &&& from <= i < arrivals.len()
                &&& arrivals[i].0 == source
                &&& forall|j: int| from <= j < i ==> (#[trigger] arrivals[j]).0 != source
            },
            None => forall|j: int|
                from <= j < arrivals.len() ==> (#[trigger] arrivals[j]).0 != source,
        },
    decreases arrivals.len() - from,
{
    if from < arrivals.len() && arrivals[from].0 != source {
        lemma_find_source(arrivals, source, from + 1);
    }
}

/// The arrival of `source` among `arrivals`.
pub open spec fn arrival_of(arrivals: Seq<(SourceId, Instant)>, source: SourceId) -> Option<
    Instant,
> {
    match registry::find_source(arrivals, source, 0) {
        Some(i) => Some(arrivals[i].1),
        None => None,
    }
}

/// The entry-level arrival of `source` that the registry holds for `slot`.
pub open spec fn entry_arrival(view: RegistryView, slot: u64, source: SourceId) -> Option<Instant> {
    match view.slots.get(slot) {
        Some(record) => arrival_of(record.entry_arrivals, source),
        None => None,
    }
}

/// One more entry-level event changes the arrival of its own source, and keeps
/// sources distinct.
proof fn lemma_entries_noted(
    arrivals: Seq<(SourceId, Instant)>,
    source: SourceId,
    at: Instant,
    other: SourceId,
)
    ensures
        arrival_of(registry::entries_noted(arrivals, source, at), other) == (if other == source {
            match arrival_of(arrivals, source) {
                Some(known) => Some(registry::earlier(known, at)),
                None => Some(at),
            }
        } else {
            arrival_of(arrivals, other)
        }),
        sources_distinct(arrivals) ==> sources_distinct(
            registry::entries_noted(arrivals, source, at),
        ),
{
    let after = registry::entries_noted(arrivals, source, at);
    lemma_find_source(arrivals, source, 0);
    lemma_find_source(arrivals, other, 0);
    lemma_find_source(after, other, 0);
    assert forall|j: int| 0 <= j < arrivals.len() implies (#[trigger] arrivals[j]).0
        == after[j].0 by {}
    if let Some(i) = registry::find_source(after, other, 0) {
        if i < arrivals.len() {
            assert(arrivals[i].0 == after[i].0);
        }
    }
    if let Some(i) = registry::find_source(arrivals, other, 0) {
        assert(after[i].0 == arrivals[i].0);
    }
    if let Some(i) = registry::find_source(arrivals, source, 0) {
        assert(after[i].0 == source);
    } else {
        assert(after[arrivals.len() as int].0 == source);
    }
}

/// For each slot and entry-level source, the registry holds the earliest moment
/// that the source reported for the slot, and nothing if it reported none.
pub proof fn law_slot_keeps_earliest_entry_per_source(
    events: Seq<Event>,
    slot: u64,
    source: SourceId,
)
    ensures
        match entry_arrival(replay(events), slot, source) {
            Some(at) => {
                &&& forall|i: int|
                    0 <= i < events.len() && is_entry_of(#[trigger] events[i], slot, source)
                        ==> at.nanos <= moment(events[i]).nanos
                &&& exists|i: int|
                    {
                        &&& 0 <= i < events.len()
                        &&& is_entry_of(#[trigger] events[i], slot, source)
                        &&& at == moment(events[i])
                    }
            },
            None => forall|i: int|
                0 <= i < events.len() ==> !is_entry_of(#[trigger] events[i], slot, source),
        },
    decreases events.len(),
{
    if events.len() > 0 {
        let before = events.drop_last();
        let last = events.last();
        law_slot_keeps_earliest_entry_per_source(before, slot, source);
        assert forall|i: int| 0 <= i < before.len() implies before[i] == #[trigger] events[i] by {}
        assert(events[events.len() - 1] == last);
        let known = entry_arrival(replay(before), slot, source);
        let now = entry_arrival(replay(events), slot, source);
        if let Event::Slot(entry) = last {
            if entry.slot == slot {
                match replay(before).slots.get(slot) {
                    Some(record) => lemma_entries_noted(
                        record.entry_arrivals,
                        entry.source,
                        entry.received_at,
                        source,
                    ),
                    None => {
                        let opened = seq![(entry.source, entry.received_at)];
                        lemma_find_source(opened, source, 0);
                        assert(opened[0].0 == entry.source);
                    },
                }
            }
        }
        if is_entry_of(last, slot, source) {
            assert(is_entry_of(events[events.len() - 1], slot, source));
        } else {
            assert(now == known) by {
                if is_shred_of(last, slot) && replay(before).slots.get(slot) is None {
                    lemma_find_source(Seq::<(SourceId, Instant)>::empty(), source, 0);
                }
            }
        }
        if let Some(at) = known {
            let i = choose|i: int|
                {
                    &&& 0 <= i < before.len()
                    &&& is_entry_of(#[trigger] before[i], slot, source)
                    &&& at == moment(before[i])
                };
            assert(is_entry_of(events[i], slot, source));
        }
        if known is None {
            assert forall|i: int| 0 <= i < before.len() implies !is_entry_of(
                #[trigger] events[i],
                slot,
                source,
            ) by {
                assert(!is_entry_of(before[i], slot, source));
            }
        }
    }
}

/// No entry-level source is recorded twice for the same slot.
pub proof fn law_slot_sources_are_distinct(events: Seq<Event>, slot: u64)
    ensures
        replay(events).slots.get(slot) matches Some(record) ==> sources_distinct(
            record.entry_arrivals,
        ),
    decreases events.len(),
{
    if events.len() > 0 {
        law_slot_sources_are_distinct(events.drop_last(), slot);
        if let Event::Slot(entry) = events.last() {
            if let Some(record) = replay(events.drop_last()).slots.get(slot) {
                lemma_entries_noted(
                    record.entry_arrivals,
                    entry.source,
                    entry.received_at,
                    entry.source,
                );
            }
        }
    }
}

/// Once a shred has a record, no event changes its first moment, its first source
/// or the arrivals that it holds.
pub proof fn law_first_arrival_is_kept(before: RegistryView, event: Event, key: ShredKey)
    ensures
        before.shreds.get(key.parts()) matches Some(known) ==> {
            &&& registry::recorded(before, event).shreds.get(key.parts()) matches Some(after)
            &&& after.first_seen == known.first_seen
            &&& after.first_source == known.first_source
            &&& known.arrivals.is_prefix_of(after.arrivals)
        },
{
}

/// From the first shred of a slot on, no event moves its first moment to a later one.
pub proof fn law_slot_first_never_moves_later(before: RegistryView, event: Event, slot: u64)
    ensures
        before.slots.get(slot) matches Some(known) ==> (known.shred_seen ==> {
            &&& registry::recorded(before, event).slots.get(slot) matches Some(after)
            &&& after.shred_seen
            &&& after.first_shred_at.nanos <= known.first_shred_at.nanos
        }),
{
}

/// The first shred of a slot sets its first moment, whatever the entry-level events
/// before it said.
pub proof fn law_first_shred_replaces_the_stand_in(
    before: RegistryView,
    shred: ShredEvent,
)
    requires
        before.slots.get(shred.key.slot) matches Some(known) ==> !known.shred_seen,
    ensures
        registry::recorded(before, Event::Shred(shred)).slots[shred.key.slot].first_shred_at
            == shred.received_at,
{
}

/// The entry-level sources that reported `slot` among `events`, in the order of their
/// first event.
pub open spec fn entry_sources(events: Seq<Event>, slot: u64) -> Seq<SourceId>
    decreases events.len(),
{
    if events.len() == 0 {
        Seq::empty()
    } else {
        let earlier = entry_sources(events.drop_last(), slot);
        match events.last() {
            Event::Slot(entry) if entry.slot == slot && !earlier.contains(entry.source) => {
                earlier.push(entry.source)
            },
            _ => earlier,
        }
    }
}

/// The sources of `arrivals`.
pub open spec fn sources_of(arrivals: Seq<(SourceId, Instant)>) -> Seq<SourceId> {
    arrivals.map_values(|arrival: (SourceId, Instant)| arrival.0)
}

/// A slot's entry-level sources stand in the order of their first event.
pub proof fn law_entry_sources_keep_their_order(events: Seq<Event>, slot: u64)
    ensures
        entry_sources(events, slot) == (match replay(events).slots.get(slot) {
            Some(record) => sources_of(record.entry_arrivals),
            None => Seq::empty(),
        }),
    decreases events.len(),
{
    if events.len() > 0 {
        let before = events.drop_last();
        law_entry_sources_keep_their_order(before, slot);
        let known = entry_sources(before, slot);
        if let Event::Slot(entry) = events.last() {
            if entry.slot == slot {
                let arrivals = match replay(before).slots.get(slot) {
                    Some(record) => record.entry_arrivals,
                    None => Seq::empty(),
                };
                let after = registry::entries_noted(arrivals, entry.source, entry.received_at);
                lemma_find_source(arrivals, entry.source, 0);
                assert(known =~= sources_of(arrivals));
                match registry::find_source(arrivals, entry.source, 0) {
                    Some(i) => {
                        assert(sources_of(arrivals)[i] == entry.source);
                        assert(sources_of(after) =~= known);
                    },
                    None => {
                        if known.contains(entry.source) {
                            let j = choose|j: int|
                                0 <= j < known.len() && known[j] == entry.source;
                            assert(arrivals[j].0 == entry.source);
                        }
                        assert(sources_of(after) =~= known.push(entry.source));
                        assert(replay(before).slots.get(slot) is None ==> after =~= seq![
                            (entry.source, entry.received_at),
                        ]);
                    },
                }
            }
        } else if is_shred_of(events.last(), slot) && replay(before).slots.get(slot) is None {
            assert(sources_of(Seq::<(SourceId, Instant)>::empty()) =~= Seq::<SourceId>::empty());
        }
    }
}

/// Recording a slot event twice is recording it once.
pub proof fn law_slot_event_twice_is_once(before: RegistryView, entry: SlotEvent)
    ensures
        ({
            let once = registry::recorded(before, Event::Slot(entry));
            registry::recorded(once, Event::Slot(entry)) == once
        }),
{
    let once = registry::recorded(before, Event::Slot(entry));
    let twice = registry::recorded(once, Event::Slot(entry));
    let noted = once.slots[entry.slot].entry_arrivals;
    let again = registry::entries_noted(noted, entry.source, entry.received_at);
    lemma_find_source(noted, entry.source, 0);
    if let Some(record) = before.slots.get(entry.slot) {
        let arrivals = record.entry_arrivals;
        lemma_find_source(arrivals, entry.source, 0);
        match registry::find_source(arrivals, entry.source, 0) {
            Some(i) => {
                assert forall|j: int| 0 <= j < arrivals.len() implies (#[trigger] noted[j]).0
                    == arrivals[j].0 by {}
                assert(noted[i].0 == entry.source);
            },
            None => {
                assert forall|j: int| 0 <= j < arrivals.len() implies #[trigger] noted[j]
                    == arrivals[j] by {}
                assert(noted[arrivals.len() as int].0 == entry.source);
            },
        }
    } else {
        assert(noted[0].0 == entry.source);
    }
    assert(again =~= noted);
    assert(twice.slots =~= once.slots);
    assert(twice =~= once);
}

/// The counters after these increments, in order, from zero.
pub open spec fn counted(increments: Seq<SourceId>) -> Map<u32, u64>
    decreases increments.len(),
{
    if increments.len() == 0 {
        Map::empty()
    } else {
        registry::incremented(counted(increments.drop_last()), increments.last())
    }
}

/// How many of the increments are of `source`.
pub open spec fn increments_of(increments: Seq<SourceId>, source: SourceId) -> nat
    decreases increments.len(),
{
    if increments.len() == 0 {
        0
    } else {
        let earlier = increments_of(increments.drop_last(), source);
        if increments.last() == source {
            earlier + 1
        } else {
            earlier
        }
    }
}

/// One more increment extends the sequence by it.
pub proof fn law_increment_extends_the_sequence(increments: Seq<SourceId>, source: SourceId)
    ensures
        registry::incremented(counted(increments), source) == counted(increments.push(source)),
{
    assert(increments.push(source).drop_last() =~= increments);
}

/// The count of a source is the number of its increments, and zero where there are
/// none; past the end of the counter's range it starts anew.
pub proof fn law_count_is_the_number_of_increments(increments: Seq<SourceId>, source: SourceId)
    ensures
        registry::drop_count(counted(increments), source) == increments_of(increments, source)
            % 0x1_0000_0000_0000_0000,
        increments.len() <= u64::MAX ==> registry::drop_count(counted(increments), source)
            == increments_of(increments, source),
        increments_of(increments, source) <= increments.len(),
    decreases increments.len(),
{
    if increments.len() > 0 {
        law_count_is_the_number_of_increments(increments.drop_last(), source);
        law_increment_counts_its_source_only(
            counted(increments.drop_last()),
            increments.last(),
            source,
        );
    }
}

/// An increment raises the count of its own source by one, around the end of the
/// counter's range, and leaves the others as they are.
pub proof fn law_increment_counts_its_source_only(
    before: Map<u32, u64>,
    source: SourceId,
    other: SourceId,
)
    ensures
        ({
            registry::drop_count(registry::incremented(before, source), other) == (if other == source {
                registry::next_count(registry::drop_count(before, source))
            } else {
                registry::drop_count(before, other)
            })
        }),
{
}

/// A new registry has a record of nothing.
pub proof fn law_new_registries_are_empty(parts: (u64, u32, bool), slot: u64, source: u32)
    ensures
        !registry::nothing_recorded().shreds.dom().contains(parts),
        !registry::nothing_recorded().slots.dom().contains(slot),
        !registry::nothing_recorded().grpc_latencies.dom().contains(source),
{
}

/// The arrival of a shred adds its source and moment behind the arrivals that the shred had.
/// The first arrival alone sets first source and first moment. No other shred's record
/// changes, and no latency sample.
pub proof fn law_shred_arrival_is_added_to_its_shred(
    before: RegistryView,
    shred: ShredEvent,
    other: ShredKey,
)
    ensures
        ({
            let after = registry::recorded(before, Event::Shred(shred));
            let parts = (shred.key.slot, shred.key.index, shred.key.shred_type is Data);
            let other_parts = (other.slot, other.index, other.shred_type is Data);
            &&& after.shreds.dom().contains(parts)
            &&& before.shreds.dom().contains(parts) ==> {
                &&& after.shreds[parts].arrivals == before.shreds[parts].arrivals + seq![
                    (shred.source, shred.received_at),
                ]
                &&& after.shreds[parts].first_seen == before.shreds[parts].first_seen
                &&& after.shreds[parts].first_source == before.shreds[parts].first_source
            }
            &&& !before.shreds.dom().contains(parts) ==> {
                &&& after.shreds[parts].arrivals == seq![(shred.source, shred.received_at)]
                &&& after.shreds[parts].first_seen == shred.received_at
                &&& after.shreds[parts].first_source == shred.source
            }
            &&& other != shred.key ==> {
                &&& after.shreds.dom().contains(other_parts) <==> before.shreds.dom().contains(
                    other_parts,
                )
                &&& after.shreds[other_parts] == before.shreds[other_parts]
            }
            &&& after.grpc_latencies == before.grpc_latencies
        }),
{
    let parts = (shred.key.slot, shred.key.index, shred.key.shred_type is Data);
    crate::shred::law_parts_identify_the_key(shred.key, other);
    if before.shreds.dom().contains(parts) {
        let arrivals = before.shreds[parts].arrivals;
        assert(arrivals.push((shred.source, shred.received_at)) =~= arrivals + seq![
            (shred.source, shred.received_at),
        ]);
    }
}

/// The arrival of a shred makes the slot's first shred moment no later than its own. It is
/// the shred's moment where that is the first or an earlier one, and else stays. The slot's
/// entry arrivals stay, and so does every other slot.
pub proof fn law_shred_arrival_moves_its_slot(before: RegistryView, shred: ShredEvent, other: u64)
    ensures
        ({
            let after = registry::recorded(before, Event::Shred(shred));
            let slot = shred.key.slot;
            let seen = before.slots.dom().contains(slot) && before.slots[slot].shred_seen;
            &&& after.slots.dom().contains(slot)
            &&& after.slots[slot].shred_seen
            &&& after.slots[slot].first_shred_at.nanos <= shred.received_at.nanos
            &&& !seen ==> after.slots[slot].first_shred_at == shred.received_at
            &&& seen ==> {
                &&& after.slots[slot].first_shred_at.nanos
                    <= before.slots[slot].first_shred_at.nanos
                &&& after.slots[slot].first_shred_at == shred.received_at
                    || after.slots[slot].first_shred_at == before.slots[slot].first_shred_at
            }
            &&& after.slots[slot].entry_arrivals == (if before.slots.dom().contains(slot) {
                before.slots[slot].entry_arrivals
            } else {
                Seq::empty()
            })
            &&& other != slot ==> {
                &&& after.slots.dom().contains(other) <==> before.slots.dom().contains(other)
                &&& after.slots[other] == before.slots[other]
            }
        }),
{
}

/// An entry-level event of a source that the slot does not know is added behind the others;
/// one of a known source moves that source's moment to the earlier of the two, in its place.
/// It opens a slot without a record at its own moment, and leaves the first shred moment of a
/// slot with one. No other slot changes, no shred and no latency sample.
pub proof fn law_slot_event_moves_its_source(
    before: RegistryView,
    entry: SlotEvent,
    i: int,
    other: u64,
)
    ensures
        ({
            let after = registry::recorded(before, Event::Slot(entry));
            let slot = entry.slot;
            let arrivals = before.slots[slot].entry_arrivals;
            let noted = after.slots[slot].entry_arrivals;
            &&& after.slots.dom().contains(slot)
            &&& !before.slots.dom().contains(slot) ==> {
                &&& noted == seq![(entry.source, entry.received_at)]
                &&& after.slots[slot].first_shred_at == entry.received_at
                &&& !after.slots[slot].shred_seen
            }
            &&& before.slots.dom().contains(slot) ==> {
                &&& after.slots[slot].first_shred_at == before.slots[slot].first_shred_at
                &&& after.slots[slot].shred_seen == before.slots[slot].shred_seen
                &&& (forall|j: int|
                    0 <= j < arrivals.len() ==> (#[trigger] arrivals[j]).0 != entry.source)
                    ==> noted == arrivals + seq![(entry.source, entry.received_at)]
                &&& 0 <= i < arrivals.len() && arrivals[i].0 == entry.source && (forall|j: int|
                    0 <= j < i ==> (#[trigger] arrivals[j]).0 != entry.source) ==> {
                    &&& noted.len() == arrivals.len()
                    &&& forall|j: int|
                        0 <= j < arrivals.len() && j != i ==> #[trigger] noted[j] == arrivals[j]
                    &&& noted[i].0 == entry.source
                    &&& noted[i].1.nanos <= arrivals[i].1.nanos
                    &&& noted[i].1.nanos <= entry.received_at.nanos
                    &&& noted[i].1 == arrivals[i].1 || noted[i].1 == entry.received_at
                }
            }
            &&& other != slot ==> {
                &&& after.slots.dom().contains(other) <==> before.slots.dom().contains(other)
                &&& after.slots[other] == before.slots[other]
            }
            &&& after.shreds == before.shreds
            &&& after.grpc_latencies == before.grpc_latencies
        }),
{
    let arrivals = before.slots[entry.slot].entry_arrivals;
    lemma_find_source(arrivals, entry.source, 0);
    match registry::find_source(arrivals, entry.source, 0) {
        Some(at) => {
            assert(arrivals[at].0 == entry.source);
        },
        None => {
            assert(arrivals.push((entry.source, entry.received_at)) =~= arrivals + seq![
                (entry.source, entry.received_at),
            ]);
        },
    }
}

/// A latency sample is added behind those of its source, and changes nothing else.
pub proof fn law_latency_sample_is_added_to_its_source(
    before: RegistryView,
    sample: GrpcLatencyEvent,
    other: u32,
)
    ensures
        ({
            let after = registry::recorded(before, Event::GrpcLatency(sample));
            let source = sample.source.0;
            &&& after.grpc_latencies.dom().contains(source)
            &&& after.grpc_latencies[source] == (if before.grpc_latencies.dom().contains(source) {
                before.grpc_latencies[source]
            } else {
                Seq::empty()
            }) + seq![sample.latency_ns]
            &&& other != source ==> {
                &&& after.grpc_latencies.dom().contains(other)
                    <==> before.grpc_latencies.dom().contains(other)
                &&& after.grpc_latencies[other] == before.grpc_latencies[other]
            }
            &&& after.shreds == before.shreds
            &&& after.slots == before.slots
        }),
{
    let source = sample.source.0;
    if before.grpc_latencies.dom().contains(source) {
        let samples = before.grpc_latencies[source];
        assert(samples.push(sample.latency_ns) =~= samples + seq![sample.latency_ns]);
    } else {
        assert(Seq::<u64>::empty() + seq![sample.latency_ns] =~= seq![sample.latency_ns]);
    }
}

/// Records hold what they show.
pub proof fn law_records_show_what_they_hold(shred: ShredRecord, slot: SlotRecord)
    ensures
        shred@.first_seen == shred.first_seen,
        shred@.first_source == shred.first_source,
        shred@.arrivals == shred.arrivals@,
        slot@.first_shred_at == slot.first_shred_at,
        slot@.shred_seen == slot.shred_seen,
        slot@.entry_arrivals == slot.entry_arrivals@,
{
}

/// Registries of the same clocks have the same start, time line and anchor.
pub proof fn law_same_clocks_are_the_same(left: Registry, right: Registry)
    ensures
        left.same_clocks(right) <==> left.start_time == right.start_time && left.clock
            == right.clock && left.clock_anchor.instant == right.clock_anchor.instant
            && left.clock_anchor.realtime_ns == right.clock_anchor.realtime_ns,
{
}

/// A count is what the counters hold for the source, and zero where they hold nothing; an
/// increment adds one to it, from the largest count to zero, and leaves all others.
pub proof fn law_increment_adds_one(counters: Map<u32, u64>, source: SourceId, other: u32)
    ensures
        registry::drop_count(counters, source) == (if counters.dom().contains(source.0) {
            counters[source.0]
        } else {
            0
        }),
        registry::incremented(counters, source).dom().contains(source.0),
        registry::incremented(counters, source)[source.0] == (registry::drop_count(counters, source)
            + 1) % 0x1_0000_0000_0000_0000,
        other != source.0 ==> {
            &&& registry::incremented(counters, source).dom().contains(other)
                <==> counters.dom().contains(other)
            &&& registry::incremented(counters, source)[other] == counters[other]
        },
{
}

/// Increments add up: those of a source in two sequences are as many as in both together.
pub proof fn law_increments_add_up(
    first: Seq<SourceId>,
    second: Seq<SourceId>,
    source: SourceId,
    other: SourceId,
)
    ensures
        increments_of(first + second, source) == increments_of(first, source) + increments_of(
            second,
            source,
        ),
        increments_of(seq![source], source) == 1,
        other != source ==> increments_of(seq![other], source) == 0,
    decreases second.len(),
{
    assert(seq![source].drop_last() =~= Seq::empty());
    assert(seq![other].drop_last() =~= Seq::empty());
    assert(increments_of(Seq::empty(), source) == 0);
    if second.len() == 0 {
        assert(first + second =~= first);
    } else {
        law_increments_add_up(first, second.drop_last(), source, other);
        assert((first + second).drop_last() =~= first + second.drop_last());
    }
}

} // verus!

//! The concurrent maps behind the registry, and what is taken from `dashmap`.
//!
//! A map is changed through an exclusive reference only, so what a call does to
//! its contents can be said exactly.
use dashmap::DashMap;
use vstd::prelude::*;

use crate::registry;
use crate::registry::{ShredRecord, SlotRecord};

verus! {

/// A `dashmap` map.
#[verifier::external_type_specification]
#[verifier::external_body]
#[verifier::reject_recursive_types(K)]
#[verifier::reject_recursive_types(V)]
#[verifier::reject_recursive_types(S)]
pub struct ExDashMap<K, V, S>(DashMap<K, V, S>);

/// What a map from the parts of a shred key to records of shreds holds.
pub uninterp spec fn shred_contents(map: DashMap<(u64, u32, bool), ShredRecord>) -> Map<(u64, u32, bool), registry::ShredRecordView>;

/// `DashMap::new`: a map that holds nothing.
#[verifier::external_body]
pub(crate) fn shred_new() -> (map: DashMap<(u64, u32, bool), ShredRecord>)
    ensures
        shred_contents(map) == (Map::<(u64, u32, bool), registry::ShredRecordView>::empty()),
{
    DashMap::new()
}

/// `DashMap::entry` with `Entry::and_modify` and `Entry::or_insert_with`: applies
/// `modify` to the value at `key` where there is one, and puts what `init` returns
/// there where there is none. No other key is touched.
#[verifier::external_body]
pub(crate) fn shred_entry<M: FnOnce(&mut ShredRecord), I: FnOnce() -> ShredRecord>(
    map: &mut DashMap<(u64, u32, bool), ShredRecord>,
    key: (u64, u32, bool),
    modify: M,
    init: I,
)
    requires
        forall|value: &mut ShredRecord| #[trigger] call_requires(modify, (value,)),
        call_requires(init, ()),
    ensures
        shred_contents(*old(map)).dom().contains(key) ==> exists|value: &mut ShredRecord|
            {
                &&& #[trigger] call_ensures(modify, (value,), ())
                &&& (*value)@ == shred_contents(*old(map))[key]
                &&& shred_contents(*final(map)) == shred_contents(*old(map)).insert(
                    key,
                    (*final(value))@,
                )
            },
        !shred_contents(*old(map)).dom().contains(key) ==> exists|value: ShredRecord|
            {
                &&& #[trigger] call_ensures(init, (), value)
                &&& shred_contents(*final(map)) == shred_contents(*old(map)).insert(
                    key,
                    value@,
                )
            },
{
    map.entry(key).and_modify(modify).or_insert_with(init);
}

/// `DashMap::view`: applies `read` to `key` and the value there, and returns what
/// it returns; `None` where the map has no value at `key`.
#[verifier::external_body]
pub(crate) fn shred_view<R, F: FnOnce(&(u64, u32, bool), &ShredRecord) -> R>(
    map: &DashMap<(u64, u32, bool), ShredRecord>,
    key: (u64, u32, bool),
    read: F,
) -> (result: Option<R>)
    requires
        forall|at: &(u64, u32, bool), value: &ShredRecord| #[trigger] call_requires(read, (at, value)),
    ensures
        match result {
            Some(answer) => {
                &&& shred_contents(*map).dom().contains(key)
                &&& exists|value: &ShredRecord|
                    {
                        &&& #[trigger] call_ensures(read, (&key, value), answer)
                        &&& (*value)@ == shred_contents(*map)[key]
                    }
            },
            None => !shred_contents(*map).dom().contains(key),
        },
{
    map.view(&key, read)
}

/// The keys of `DashMap::iter`: the items of the map are visited once each, in an order
/// that is left open.
#[verifier::external_body]
pub(crate) fn shred_keys(map: &DashMap<(u64, u32, bool), ShredRecord>) -> (keys: Vec<(u64, u32, bool)>)
    ensures
        keys@.no_duplicates(),
        forall|key: (u64, u32, bool)|
            #[trigger] keys@.contains(key) <==> shred_contents(*map).dom().contains(key),
{
    map.iter().map(|item| *item.key()).collect()
}

/// What a map from slot numbers to records of slots holds.
pub uninterp spec fn slot_contents(map: DashMap<u64, SlotRecord>) -> Map<u64, registry::SlotRecordView>;

/// `DashMap::new`: a map that holds nothing.
#[verifier::external_body]
pub(crate) fn slot_new() -> (map: DashMap<u64, SlotRecord>)
    ensures
        slot_contents(map) == (Map::<u64, registry::SlotRecordView>::empty()),
{
    DashMap::new()
}

/// `DashMap::entry` with `Entry::and_modify` and `Entry::or_insert_with`: applies
/// `modify` to the value at `key` where there is one, and puts what `init` returns
/// there where there is none. No other key is touched.
#[verifier::external_body]
pub(crate) fn slot_entry<M: FnOnce(&mut SlotRecord), I: FnOnce() -> SlotRecord>(
    map: &mut DashMap<u64, SlotRecord>,
    key: u64,
    modify: M,
    init: I,
)
    requires
        forall|value: &mut SlotRecord| #[trigger] call_requires(modify, (value,)),
        call_requires(init, ()),
    ensures
        slot_contents(*old(map)).dom().contains(key) ==> exists|value: &mut SlotRecord|
            {
                &&& #[trigger] call_ensures(modify, (value,), ())
                &&& (*value)@ == slot_contents(*old(map))[key]
                &&& slot_contents(*final(map)) == slot_contents(*old(map)).insert(
                    key,
                    (*final(value))@,
                )
            },
        !slot_contents(*old(map)).dom().contains(key) ==> exists|value: SlotRecord|
            {
                &&& #[trigger] call_ensures(init, (), value)
                &&& slot_contents(*final(map)) == slot_contents(*old(map)).insert(
                    key,
                    value@,
                )
            },
{
    map.entry(key).and_modify(modify).or_insert_with(init);
}

/// `DashMap::view`: applies `read` to `key` and the value there, and returns what
/// it returns; `None` where the map has no value at `key`.
#[verifier::external_body]
pub(crate) fn slot_view<R, F: FnOnce(&u64, &SlotRecord) -> R>(
    map: &DashMap<u64, SlotRecord>,
    key: u64,
    read: F,
) -> (result: Option<R>)
    requires
        forall|at: &u64, value: &SlotRecord| #[trigger] call_requires(read, (at, value)),
    ensures
        match result {
            Some(answer) => {
                &&& slot_contents(*map).dom().contains(key)
                &&& exists|value: &SlotRecord|
                    {
                        &&& #[trigger] call_ensures(read, (&key, value), answer)
                        &&& (*value)@ == slot_contents(*map)[key]
                    }
            },
            None => !slot_contents(*map).dom().contains(key),
        },
{
    map.view(&key, read)
}

/// The keys of `DashMap::iter`: the items of the map are visited once each, in an order
/// that is left open.
#[verifier::external_body]
pub(crate) fn slot_keys(map: &DashMap<u64, SlotRecord>) -> (keys: Vec<u64>)
    ensures
        keys@.no_duplicates(),
        forall|key: u64|
            #[trigger] keys@.contains(key) <==> slot_contents(*map).dom().contains(key),
{
    map.iter().map(|item| *item.key()).collect()
}

/// What a map from source numbers to latency samples holds.
pub uninterp spec fn latency_contents(map: DashMap<u32, Vec<u64>>) -> Map<u32, Seq<u64>>;

/// `DashMap::new`: a map that holds nothing.
#[verifier::external_body]
pub(crate) fn latency_new() -> (map: DashMap<u32, Vec<u64>>)
    ensures
        latency_contents(map) == (Map::<u32, Seq<u64>>::empty()),
{
    DashMap::new()
}

/// `DashMap::entry` with `Entry::and_modify` and `Entry::or_insert_with`: applies
/// `modify` to the value at `key` where there is one, and puts what `init` returns
/// there where there is none. No other key is touched.
#[verifier::external_body]
pub(crate) fn latency_entry<M: FnOnce(&mut Vec<u64>), I: FnOnce() -> Vec<u64>>(
    map: &mut DashMap<u32, Vec<u64>>,
    key: u32,
    modify: M,
    init: I,
)
    requires
        forall|value: &mut Vec<u64>| #[trigger] call_requires(modify, (value,)),
        call_requires(init, ()),
    ensures
        latency_contents(*old(map)).dom().contains(key) ==> exists|value: &mut Vec<u64>|
            {
                &&& #[trigger] call_ensures(modify, (value,), ())
                &&& (*value)@ == latency_contents(*old(map))[key]
                &&& latency_contents(*final(map)) == latency_contents(*old(map)).insert(
                    key,
                    (*final(value))@,
                )
            },
        !latency_contents(*old(map)).dom().contains(key) ==> exists|value: Vec<u64>|
            {
                &&& #[trigger] call_ensures(init, (), value)
                &&& latency_contents(*final(map)) == latency_contents(*old(map)).insert(
                    key,
                    value@,
                )
            },
{
    map.entry(key).and_modify(modify).or_insert_with(init);
}

/// `DashMap::view`: applies `read` to `key` and the value there, and returns what
/// it returns; `None` where the map has no value at `key`.
#[verifier::external_body]
pub(crate) fn latency_view<R, F: FnOnce(&u32, &Vec<u64>) -> R>(
    map: &DashMap<u32, Vec<u64>>,
    key: u32,
    read: F,
) -> (result: Option<R>)
    requires
        forall|at: &u32, value: &Vec<u64>| #[trigger] call_requires(read, (at, value)),
    ensures
        match result {
            Some(answer) => {
                &&& latency_contents(*map).dom().contains(key)
                &&& exists|value: &Vec<u64>|
                    {
                        &&& #[trigger] call_ensures(read, (&key, value), answer)
                        &&& (*value)@ == latency_contents(*map)[key]
                    }
            },
            None => !latency_contents(*map).dom().contains(key),
        },
{
    map.view(&key, read)
}

/// The keys of `DashMap::iter`: the items of the map are visited once each, in an order
/// that is left open.
#[verifier::external_body]
pub(crate) fn latency_keys(map: &DashMap<u32, Vec<u64>>) -> (keys: Vec<u32>)
    ensures
        keys@.no_duplicates(),
        forall|key: u32|
            #[trigger] keys@.contains(key) <==> latency_contents(*map).dom().contains(key),
{
    map.iter().map(|item| *item.key()).collect()
}

/// What a map from source numbers to counters holds.
pub uninterp spec fn count_contents(map: DashMap<u32, u64>) -> Map<u32, u64>;

/// `DashMap::new`: a map that holds nothing.
#[verifier::external_body]
pub(crate) fn count_new() -> (map: DashMap<u32, u64>)
    ensures
        count_contents(map) == (Map::<u32, u64>::empty()),
{
    DashMap::new()
}

/// `DashMap::entry` with `Entry::and_modify` and `Entry::or_insert_with`: applies
/// `modify` to the value at `key` where there is one, and puts what `init` returns
/// there where there is none. No other key is touched.
#[verifier::external_body]
pub(crate) fn count_entry<M: FnOnce(&mut u64), I: FnOnce() -> u64>(
    map: &mut DashMap<u32, u64>,
    key: u32,
    modify: M,
    init: I,
)
    requires
        forall|value: &mut u64| #[trigger] call_requires(modify, (value,)),
        call_requires(init, ()),
    ensures
        count_contents(*old(map)).dom().contains(key) ==> exists|value: &mut u64|
            {
                &&& #[trigger] call_ensures(modify, (value,), ())
                &&& *value == count_contents(*old(map))[key]
                &&& count_contents(*final(map)) == count_contents(*old(map)).insert(
                    key,
                    *final(value),
                )
            },
        !count_contents(*old(map)).dom().contains(key) ==> exists|value: u64|
            {
                &&& #[trigger] call_ensures(init, (), value)
                &&& count_contents(*final(map)) == count_contents(*old(map)).insert(
                    key,
                    value,
                )
            },
{
    map.entry(key).and_modify(modify).or_insert_with(init);
}

/// `DashMap::view`: applies `read` to `key` and the value there, and returns what
/// it returns; `None` where the map has no value at `key`.
#[verifier::external_body]
pub(crate) fn count_view<R, F: FnOnce(&u32, &u64) -> R>(
    map: &DashMap<u32, u64>,
    key: u32,
    read: F,
) -> (result: Option<R>)
    requires
        forall|at: &u32, value: &u64| #[trigger] call_requires(read, (at, value)),
    ensures
        match result {
            Some(answer) => {
                &&& count_contents(*map).dom().contains(key)
                &&& exists|value: &u64|
                    {
                        &&& #[trigger] call_ensures(read, (&key, value), answer)
                        &&& *value == count_contents(*map)[key]
                    }
            },
            None => !count_contents(*map).dom().contains(key),
        },
{
    map.view(&key, read)
}

} // verus!

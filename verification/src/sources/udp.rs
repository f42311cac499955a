//! Datagram reception: what to do with what a receive call gave, shared by the raw
//! UDP and Jito listeners.
use vstd::prelude::*;

use crate::clock::{Instant, MonotonicClock};
use crate::registry::{ShredEvent, SourceId};
use crate::shred;
use crate::shred::ShredKey;
use crate::sources::kernel_ts;
use crate::sources::kernel_ts::{BatchRecv, ClockAnchor};

verus! {

/// Datagrams taken in by one batched receive call: enough to spread its cost over
/// the bursts at slot boundaries.
pub const RECV_BATCH_SIZE: usize = 64;

/// Size of a receive buffer; no shred is larger.
pub const DATAGRAM_BUF_SIZE: usize = 1280;

/// Receive timeout in milliseconds, so that cancellation is seen regularly.
pub const RECV_TIMEOUT_MILLIS: u64 = 100;

/// Why a receive call failed.
#[derive(Clone, Copy, Debug, PartialEq, Eq, Structural)]
pub enum RecvErrorKind {
    WouldBlock,
    TimedOut,
    Other,
}

/// Nothing had arrived when the receive timeout expired. This is how a listener
/// gets to look at its cancellation, and is no failure.
pub fn is_timeout(kind: RecvErrorKind) -> (timeout: bool)
    ensures
        timeout == (kind is WouldBlock || kind is TimedOut),
{
    match kind {
        RecvErrorKind::WouldBlock => true,
        RecvErrorKind::TimedOut => true,
        RecvErrorKind::Other => false,
    }
}

/// Outcome of a batched receive call that returned `n`, and failed with `error` if that
/// is negative: the number of datagrams, zero if the timeout expired.
pub open spec fn outcome_of(n: i32, error: RecvErrorKind) -> Result<usize, RecvErrorKind> {
    if n >= 0 {
        Ok(n as usize)
    } else if error is WouldBlock || error is TimedOut {
        Ok(0)
    } else {
        Err(error)
    }
}

/// Outcome of a batched receive call that returned `n`, and failed with `error` if
/// that is negative: the number of datagrams, zero if the timeout expired.
pub fn batch_outcome(n: i32, error: RecvErrorKind) -> (outcome: Result<usize, RecvErrorKind>)
    ensures
        outcome == outcome_of(n, error),
{
    if n < 0 {
        if is_timeout(error) {
            return Ok(0);
        }
        return Err(error);
    }
    Ok(n as usize)
}

/// The event of a datagram in which `key` was found, if any was.
pub open spec fn event_for(source: SourceId, key: Option<ShredKey>, received_at: Instant) -> Option<
    ShredEvent,
> {
    match key {
        Some(key) => Some(ShredEvent { source, key, received_at }),
        None => None,
    }
}

/// Takes in a datagram of `len` bytes at the start of `buf`, read at `now`: has
/// `parse` look for a shred in it, and returns the event to send.
pub fn datagram_event<P: Fn(&[u8]) -> Option<ShredKey>>(
    source: SourceId,
    buf: &[u8],
    len: usize,
    now: Instant,
    parse: P,
) -> (event: Option<ShredEvent>)
    requires
        len <= buf@.len(),
        forall|datagram: &[u8]| #[trigger] call_requires(parse, (datagram,)),
    ensures
        exists|key: Option<ShredKey>|
            {
                &&& #[trigger] shred::finds(parse, buf@.take(len as int), key)
                &&& event == event_for(source, key, now)
            },
{
    let found: Option<ShredKey> = parse(&buf[0..len]);
    assert(shred::finds(parse, buf@.take(len as int), found));
    match found {
        Some(key) => Some(ShredEvent { source, key, received_at: now }),
        None => None,
    }
}

/// The events of the datagrams in which `keys` were found, in order, with their
/// moments.
pub open spec fn events_for(source: SourceId, keys: Seq<Option<ShredKey>>, moments: Seq<Instant>) -> Seq<
    ShredEvent,
>
    decreases keys.len(),
{
    if keys.len() == 0 {
        Seq::empty()
    } else {
        let earlier = events_for(source, keys.drop_last(), moments.drop_last());
        match event_for(source, keys.last(), moments.last()) {
            Some(event) => earlier.push(event),
            None => earlier,
        }
    }
}

/// Takes in the first `n` datagrams of a batch: has `parse` look for a shred in each,
/// and returns the events to send. Where the kernel attached no timestamp to a
/// datagram, its moment is the present one of `clock`.
pub fn batch_events<P: Fn(&[u8]) -> Option<ShredKey>>(
    batch: &BatchRecv,
    n: usize,
    source: SourceId,
    anchor: &ClockAnchor,
    clock: &MonotonicClock,
    parse: P,
) -> (events: Vec<ShredEvent>)
    requires
        batch.wf(),
        n <= batch.bufs@.len(),
        forall|datagram: &[u8]| #[trigger] call_requires(parse, (datagram,)),
        forall|i: int|
            0 <= i < n ==> (#[trigger] batch.stamps@[i] matches Some(ts) ==> anchor.can_convert(
                ts.nanos(),
            )),
    ensures
        exists|keys: Seq<Option<ShredKey>>, moments: Seq<Instant>|
            {
                &&& keys.len() == n
                &&& moments.len() == n
                &&& forall|i: int|
                    0 <= i < n ==> shred::finds(parse, batch.datagram(i), #[trigger] keys[i])
                &&& forall|i: int|
                    0 <= i < n ==> #[trigger] moments[i] == kernel_ts::arrival_moment(
                        *anchor,
                        batch.stamps@[i],
                        moments[i],
                    )
                &&& forall|i: int|
                    0 <= i < n && batch.stamps@[i] is None ==> clock.shows(#[trigger] moments[i])
                &&& events@ == #[trigger] events_for(source, keys, moments)
            },
{
    let mut events: Vec<ShredEvent> = Vec::new();
    let ghost mut keys: Seq<Option<ShredKey>> = Seq::empty();
    let ghost mut moments: Seq<Instant> = Seq::empty();
    let mut i: usize = 0;
    while i < n
        invariant
            i <= n,
            batch.wf(),
            n <= batch.bufs@.len(),
            forall|datagram: &[u8]| #[trigger] call_requires(parse, (datagram,)),
            forall|j: int|
                0 <= j < n ==> (#[trigger] batch.stamps@[j] matches Some(ts) ==> anchor.can_convert(
                    ts.nanos(),
                )),
            keys.len() == i,
            moments.len() == i,
            forall|j: int| 0 <= j < i ==> shred::finds(parse, batch.datagram(j), #[trigger] keys[j]),
            forall|j: int|
                0 <= j < i ==> #[trigger] moments[j] == kernel_ts::arrival_moment(
                    *anchor,
                    batch.stamps@[j],
                    moments[j],
                ),
            forall|j: int|
                0 <= j < i && batch.stamps@[j] is None ==> clock.shows(#[trigger] moments[j]),
            events@ == events_for(source, keys, moments),
        decreases n - i,
    {
        let frame: &[u8] = batch.frame(i);
        let found: Option<ShredKey> = parse(frame);
        let ghost before = keys;
        let ghost before_moments = moments;
        assert(shred::finds(parse, batch.datagram(i as int), found));
        let now: Instant = match batch.stamps[i] {
            Some(_) => anchor.instant,
            None => clock.now(),
        };
        let at: Instant = batch.timestamp(i, anchor, now);
        if let Some(key) = found {
            events.push(ShredEvent { source, key, received_at: at });
        }
        proof {
            keys = before.push(found);
            moments = before_moments.push(at);
            assert(keys.drop_last() =~= before);
            assert(moments.drop_last() =~= before_moments);
        }
        i = i + 1;
    }
    events
}

/// A receive call that took in datagrams reports their number, whatever the error says; one
/// that failed reports none on a timeout, and otherwise its own error.
pub proof fn law_outcome_reports_the_call(n: i32, error: RecvErrorKind)
    ensures
        n >= 0 ==> (outcome_of(n, error) matches Ok(count) && count as int == n),
        n < 0 && error != RecvErrorKind::Other ==> (outcome_of(n, error) matches Ok(count) && count
            == 0),
        n < 0 && error == RecvErrorKind::Other ==> outcome_of(n, error) == Err::<
            usize,
            RecvErrorKind,
        >(RecvErrorKind::Other),
{
}

/// A datagram with a shred gives one event, of the given source, key and moment; one
/// without gives none.
pub proof fn law_one_event_per_shred(source: SourceId, key: ShredKey, at: Instant)
    ensures
        event_for(source, Some(key), at) matches Some(event) && event.source == source && event.key
            == key && event.received_at == at,
        event_for(source, None, at) is None,
        events_for(source, seq![Some(key)], seq![at]) == seq![
            ShredEvent { source, key, received_at: at },
        ],
        events_for(source, seq![None::<ShredKey>], seq![at]).len() == 0,
        events_for(source, Seq::empty(), Seq::empty()).len() == 0,
{
    let found = seq![Some(key)];
    let lost = seq![None::<ShredKey>];
    assert(found.drop_last() =~= Seq::empty());
    assert(lost.drop_last() =~= Seq::empty());
    assert(seq![at].drop_last() =~= Seq::empty());
    assert(events_for(source, Seq::empty(), Seq::empty()) =~= Seq::empty());
    assert(events_for(source, found, seq![at]) =~= seq![
        ShredEvent { source, key, received_at: at },
    ]);
}

/// The events of two batches one after the other are those of the first followed by those
/// of the second: what a datagram gives does not depend on the others.
pub proof fn law_batches_add_up(
    source: SourceId,
    keys: Seq<Option<ShredKey>>,
    moments: Seq<Instant>,
    more_keys: Seq<Option<ShredKey>>,
    more_moments: Seq<Instant>,
)
    requires
        keys.len() == moments.len(),
        more_keys.len() == more_moments.len(),
    ensures
        events_for(source, keys + more_keys, moments + more_moments) == events_for(
            source,
            keys,
            moments,
        ) + events_for(source, more_keys, more_moments),
    decreases more_keys.len(),
{
    if more_keys.len() == 0 {
        assert(keys + more_keys =~= keys);
        assert(moments + more_moments =~= moments);
        assert(events_for(source, keys, moments) + Seq::<ShredEvent>::empty() =~= events_for(
            source,
            keys,
            moments,
        ));
    } else {
        law_batches_add_up(source, keys, moments, more_keys.drop_last(), more_moments.drop_last());
        assert((keys + more_keys).drop_last() =~= keys + more_keys.drop_last());
        assert((moments + more_moments).drop_last() =~= moments + more_moments.drop_last());
        let front = events_for(source, keys, moments);
        let back = events_for(source, more_keys.drop_last(), more_moments.drop_last());
        if let Some(key) = more_keys.last() {
            let event = ShredEvent { source, key, received_at: more_moments.last() };
            assert((front + back).push(event) =~= front + back.push(event));
        }
    }
}

/// A batch gives as many events as datagrams in which a key was found. The event of each
/// such datagram stands behind those of the datagrams before it, and has the given source,
/// the datagram's key and its moment.
pub proof fn law_every_shred_of_a_batch_has_its_event(
    source: SourceId,
    keys: Seq<Option<ShredKey>>,
    moments: Seq<Instant>,
    i: int,
)
    requires
        keys.len() == moments.len(),
    ensures
        events_for(source, keys, moments).len() == keys.filter(
            |key: Option<ShredKey>| key is Some,
        ).len(),
        0 <= i < keys.len() ==> (keys[i] matches Some(key) ==> {
            let before = keys.take(i).filter(|key: Option<ShredKey>| key is Some).len();
            &&& before < events_for(source, keys, moments).len()
            &&& events_for(source, keys, moments)[before as int].source == source
            &&& events_for(source, keys, moments)[before as int].key == key
            &&& events_for(source, keys, moments)[before as int].received_at == moments[i]
        }),
{
    lemma_events_are_counted(source, keys, moments);
    if 0 <= i < keys.len() {
        if let Some(key) = keys[i] {
            let front = keys.take(i);
            let front_moments = moments.take(i);
            let back = keys.skip(i + 1);
            let back_moments = moments.skip(i + 1);
            lemma_events_are_counted(source, front, front_moments);
            law_one_event_per_shred(source, key, moments[i]);
            law_batches_add_up(source, front, front_moments, seq![Some(key)], seq![moments[i]]);
            law_batches_add_up(
                source,
                front + seq![Some(key)],
                front_moments + seq![moments[i]],
                back,
                back_moments,
            );
            assert(front + seq![Some(key)] + back =~= keys);
            assert(front_moments + seq![moments[i]] + back_moments =~= moments);
        }
    }
}

/// There are as many events as keys.
proof fn lemma_events_are_counted(
    source: SourceId,
    keys: Seq<Option<ShredKey>>,
    moments: Seq<Instant>,
)
    requires
        keys.len() == moments.len(),
    ensures
        events_for(source, keys, moments).len() == keys.filter(
            |key: Option<ShredKey>| key is Some,
        ).len(),
    decreases keys.len(),
{
    reveal(Seq::filter);
    if keys.len() > 0 {
        lemma_events_are_counted(source, keys.drop_last(), moments.drop_last());
    }
}

} // verus!

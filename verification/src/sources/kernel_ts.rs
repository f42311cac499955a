//! Kernel-side packet timestamps.
//!
//! Kernel software timestamps are in `CLOCK_REALTIME`; the registry's arithmetic
//! is in [`Instant`]s of the monotonic clock. A [`ClockAnchor`] captured at startup
//! bridges the two: kernel timestamps are converted relative to that anchor.
use vstd::prelude::*;

use crate::clock;
use crate::clock::{Instant, MonotonicClock, NANOS_PER_SEC};
use crate::sources::udp;
use crate::sources::udp::RecvErrorKind;

verus! {

/// Durations are counted in a `u64` of nanoseconds, which wraps at this value.
pub const DURATION_SPAN: i128 = 0x1_0000_0000_0000_0000;

/// Anchor pair used to convert kernel `CLOCK_REALTIME` timestamps into
/// [`Instant`]s comparable with the rest of the program's.
#[derive(Clone, Copy, Debug)]
pub struct ClockAnchor {
    pub instant: Instant,
    pub realtime_ns: i128,
}

/// `nanos` is a number of nanoseconds that a clock can show, on either side of its
/// origin.
pub open spec fn within_clock_range(nanos: int) -> bool {
    -clock::total_nanos(u64::MAX as int, 999_999_999) <= nanos <= clock::total_nanos(
        u64::MAX as int,
        999_999_999,
    )
}

impl ClockAnchor {
    /// `ts_ns` can be converted: its distance from the anchor, and a moment that
    /// far after the anchor, can be represented.
    pub open spec fn can_convert(self, ts_ns: int) -> bool {
        let delta = ts_ns - self.realtime_ns;
        &&& i128::MIN < delta <= i128::MAX
        &&& delta >= 0 ==> self.instant.nanos + delta % (DURATION_SPAN as int) <= i128::MAX
    }

    /// The moment, in nanoseconds, to which the anchor takes `ts_ns`: as far from
    /// the anchor's instant as `ts_ns` is from its realtime reading, where the
    /// distance is counted modulo [`DURATION_SPAN`]. A moment too early to be
    /// represented becomes the anchor's own.
    pub open spec fn converted(self, ts_ns: int) -> int {
        let delta = ts_ns - self.realtime_ns;
        if delta >= 0 {
            self.instant.nanos + delta % (DURATION_SPAN as int)
        } else if self.instant.nanos - (-delta) % (DURATION_SPAN as int) >= i128::MIN {
            self.instant.nanos - (-delta) % (DURATION_SPAN as int)
        } else {
            self.instant.nanos as int
        }
    }

    /// The anchor of these two readings. Where they are readings that the clocks can
    /// give, every timestamp that the kernel can give can be converted with it.
    pub fn at(realtime_ns: i128, instant: Instant) -> (anchor: ClockAnchor)
        ensures
            anchor.realtime_ns == realtime_ns,
            anchor.instant == instant,
            within_clock_range(realtime_ns as int) && within_clock_range(instant.nanos as int)
                ==> forall|ts: Timespec| #[trigger] anchor.can_convert(ts.nanos()),
    {
        ClockAnchor { instant, realtime_ns }
    }

    /// Whether `ts_ns` can be converted.
    pub fn is_convertible(&self, ts_ns: i128) -> (convertible: bool)
        ensures
            convertible == self.can_convert(ts_ns as int),
    {
        match ts_ns.checked_sub(self.realtime_ns) {
            Some(delta) => if delta == i128::MIN {
                false
            } else if delta >= 0 {
                let span: i128 = (delta as u128 % DURATION_SPAN as u128) as i128;
                self.instant.nanos.checked_add(span).is_some()
            } else {
                true
            },
            None => false,
        }
    }

    /// Captures both clocks back-to-back, realtime before monotonic, so that a
    /// kernel timestamp taken slightly before this call still yields a
    /// non-negative delta. The anchor pairs a reading of the realtime clock with a moment
    /// on the time line of `clock`, and every timestamp that the kernel can give can be
    /// converted with it.
    pub fn capture(clock: &MonotonicClock) -> (anchor: ClockAnchor)
        ensures
            clock.shows(anchor.instant),
            shows_realtime(anchor.realtime_ns as int),
            0 <= anchor.instant.nanos,
            within_clock_range(anchor.instant.nanos as int),
            within_clock_range(anchor.realtime_ns as int),
            forall|ts: Timespec| #[trigger] anchor.can_convert(ts.nanos()),
    {
        let realtime_ns: i128 = realtime_ns_now();
        let instant: Instant = clock.now();
        ClockAnchor::at(realtime_ns, instant)
    }

    /// Converts a kernel `CLOCK_REALTIME` timestamp (nanoseconds since the unix
    /// epoch) into an [`Instant`] consistent with this anchor.
    pub fn instant_from_realtime_ns(&self, ts_ns: i128) -> (instant: Instant)
        requires
            self.can_convert(ts_ns as int),
        ensures
            instant.nanos == self.converted(ts_ns as int),
    {
        let delta: i128 = ts_ns - self.realtime_ns;
        if delta >= 0 {
            let span: i128 = (delta as u128 % DURATION_SPAN as u128) as i128;
            Instant { nanos: self.instant.nanos + span }
        } else {
            let span: i128 = ((-delta) as u128 % DURATION_SPAN as u128) as i128;
            match self.instant.nanos.checked_sub(span) {
                Some(nanos) => Instant { nanos },
                None => self.instant,
            }
        }
    }
}

/// A `CLOCK_REALTIME` reading as the kernel reports it.
#[derive(Clone, Copy, Debug, PartialEq, Eq, Structural)]
pub struct Timespec {
    pub tv_sec: i64,
    pub tv_nsec: i64,
}

impl Timespec {
    /// The reading in nanoseconds since the unix epoch.
    pub open spec fn nanos(self) -> int {
        clock::total_nanos(self.tv_sec as int, self.tv_nsec as int)
    }

    /// The reading in nanoseconds since the unix epoch.
    pub fn as_nanos(&self) -> (nanos: i128)
        ensures
            nanos == self.nanos(),
    {
        self.tv_sec as i128 * NANOS_PER_SEC + self.tv_nsec as i128
    }
}

/// A reading of the operating system's realtime clock.
#[verifier::external_type_specification]
#[verifier::external_body]
pub struct ExSystemTime(std::time::SystemTime);

/// Distance of `reading` from the unix epoch, as whole seconds and the nanoseconds
/// beyond them: `Ok` at or after the epoch, `Err` before it, as
/// `std::time::SystemTime::duration_since` counts it.
pub uninterp spec fn epoch_distance(reading: std::time::SystemTime) -> Result<
    (u64, u32),
    (u64, u32),
>;

/// Reads the realtime clock with `std::time::SystemTime::now`. What it reads is up to
/// the machine, so nothing is claimed of it.
#[verifier::external_body]
fn std_system_time_now() -> std::time::SystemTime {
    std::time::SystemTime::now()
}

/// `std::time::SystemTime::duration_since` with `UNIX_EPOCH`: the distance of `reading`
/// from it, whose fraction is less than one second. It depends on the reading alone.
#[verifier::external_body]
fn std_epoch_distance(reading: &std::time::SystemTime) -> (distance: Result<(u64, u32), (u64, u32)>)
    ensures
        distance == epoch_distance(*reading),
        match distance {
            Ok(after) => after.1 < 1_000_000_000,
            Err(before) => before.1 < 1_000_000_000,
        },
{
    match reading.duration_since(std::time::UNIX_EPOCH) {
        Ok(after) => Ok((after.as_secs(), after.subsec_nanos())),
        Err(before) => Err((before.duration().as_secs(), before.duration().subsec_nanos())),
    }
}

/// Nanoseconds since the unix epoch, given the distance from it: `Ok` of seconds and
/// nanoseconds at or after the epoch, `Err` of them before it.
pub open spec fn signed_nanos(distance: Result<(u64, u32), (u64, u32)>) -> int {
    match distance {
        Ok(after) => clock::total_nanos(after.0 as int, after.1 as int),
        Err(before) => -clock::total_nanos(before.0 as int, before.1 as int),
    }
}

/// A reading of the realtime clock in nanoseconds since the unix epoch.
pub open spec fn epoch_nanos(reading: std::time::SystemTime) -> int {
    signed_nanos(epoch_distance(reading))
}

/// `nanos` is what a reading of the realtime clock shows, in nanoseconds since the unix
/// epoch.
pub open spec fn shows_realtime(nanos: int) -> bool {
    exists|reading: std::time::SystemTime| nanos == #[trigger] epoch_nanos(reading)
}

/// Nanoseconds since the unix epoch, given the distance from it.
pub fn signed_epoch_nanos(distance: Result<(u64, u32), (u64, u32)>) -> (nanos: i128)
    ensures
        nanos == signed_nanos(distance),
{
    match distance {
        Ok(after) => after.0 as i128 * NANOS_PER_SEC + after.1 as i128,
        Err(before) => -(before.0 as i128 * NANOS_PER_SEC + before.1 as i128),
    }
}

/// A reading of the realtime clock in nanoseconds since the unix epoch.
pub fn realtime_ns_of(reading: std::time::SystemTime) -> (nanos: i128)
    ensures
        nanos == epoch_nanos(reading),
        within_clock_range(nanos as int),
{
    signed_epoch_nanos(std_epoch_distance(&reading))
}

/// Reads `CLOCK_REALTIME` as nanoseconds since the unix epoch. Which reading it gets is
/// up to the machine.
pub fn realtime_ns_now() -> (nanos: i128)
    ensures
        shows_realtime(nanos as int),
        within_clock_range(nanos as int),
{
    realtime_ns_of(std_system_time_now())
}

/// Level and type of one control message that came with a datagram.
#[derive(Clone, Copy, Debug, PartialEq, Eq, Structural)]
pub struct ControlHeader {
    pub level: i32,
    pub kind: i32,
}

/// Finds the first control message of the given level and type.
pub fn find_control_message(headers: &[ControlHeader], level: i32, kind: i32) -> (found: Option<
    usize,
>)
    ensures
        match found {
            Some(at) => {
                &&& at < headers@.len()
                &&& headers@[at as int] == (ControlHeader { level, kind })
                &&& forall|i: int|
                    0 <= i < at ==> #[trigger] headers@[i] != (ControlHeader { level, kind })
            },
            None => forall|i: int|
                0 <= i < headers@.len() ==> #[trigger] headers@[i] != (ControlHeader {
                    level,
                    kind,
                }),
        },
{
    let mut i: usize = 0;
    while i < headers.len()
        invariant
            i <= headers@.len(),
            forall|j: int| 0 <= j < i ==> #[trigger] headers@[j] != (ControlHeader { level, kind }),
        decreases headers@.len() - i,
    {
        if headers[i].level == level && headers[i].kind == kind {
            return Some(i);
        }
        i = i + 1;
    }
    None
}

/// The moment at which a datagram arrived: the kernel's timestamp where it attached
/// one, and otherwise `now`, the moment at which the datagram was read.
pub open spec fn arrival_moment(anchor: ClockAnchor, stamp: Option<Timespec>, now: Instant) -> Instant {
    match stamp {
        Some(ts) => Instant { nanos: anchor.converted(ts.nanos()) as i128 },
        None => now,
    }
}

/// The moment at which a datagram arrived, so that a missing kernel timestamp never
/// loses the datagram.
pub fn received_at(anchor: &ClockAnchor, stamp: Option<Timespec>, now: Instant) -> (instant:
    Instant)
    requires
        stamp matches Some(ts) ==> anchor.can_convert(ts.nanos()),
    ensures
        instant == arrival_moment(*anchor, stamp, now),
        stamp matches Some(ts) ==> instant.nanos == anchor.converted(ts.nanos()),
{
    match stamp {
        Some(ts) => anchor.instant_from_realtime_ns(ts.as_nanos()),
        None => now,
    }
}

/// Datagrams received in one batch: per slot a buffer, the length of what it holds,
/// and the kernel's timestamp if there was one.
pub struct BatchRecv {
    pub bufs: Vec<Vec<u8>>,
    pub lens: Vec<usize>,
    pub stamps: Vec<Option<Timespec>>,
}

impl BatchRecv {
    /// Every slot has a length and a timestamp, and no datagram is longer than its
    /// buffer.
    pub open spec fn wf(self) -> bool {
        &&& self.lens@.len() == self.bufs@.len()
        &&& self.stamps@.len() == self.bufs@.len()
        &&& forall|i: int|
            0 <= i < self.bufs@.len() ==> #[trigger] self.lens@[i] <= self.bufs@[i]@.len()
    }

    /// Bytes of the datagram in slot `i`.
    pub open spec fn datagram(self, i: int) -> Seq<u8> {
        self.bufs@[i]@.take(self.lens@[i] as int)
    }

    /// `batch_size` empty slots with buffers of `buf_size` zero bytes.
    pub fn new(batch_size: usize, buf_size: usize) -> (batch: BatchRecv)
        requires
            batch_size > 0,
        ensures
            batch.wf(),
            batch.bufs@.len() == batch_size,
            forall|i: int|
                0 <= i < batch_size ==> (#[trigger] batch.bufs@[i])@ == Seq::new(
                    buf_size as nat,
                    |j: int| 0u8,
                ),
            forall|i: int| 0 <= i < batch_size ==> #[trigger] batch.lens@[i] == 0,
            forall|i: int| 0 <= i < batch_size ==> #[trigger] batch.stamps@[i] is None,
    {
        let mut bufs: Vec<Vec<u8>> = Vec::new();
        let mut lens: Vec<usize> = Vec::new();
        let mut stamps: Vec<Option<Timespec>> = Vec::new();
        let mut i: usize = 0;
        while i < batch_size
            invariant
                i <= batch_size,
                bufs@.len() == i,
                lens@.len() == i,
                stamps@.len() == i,
                forall|j: int|
                    0 <= j < i ==> (#[trigger] bufs@[j])@ == Seq::new(
                        buf_size as nat,
                        |k: int| 0u8,
                    ),
                forall|j: int| 0 <= j < i ==> #[trigger] lens@[j] == 0,
                forall|j: int| 0 <= j < i ==> #[trigger] stamps@[j] is None,
            decreases batch_size - i,
        {
            bufs.push(zeroed(buf_size));
            lens.push(0);
            stamps.push(None);
            i = i + 1;
        }
        BatchRecv { bufs, lens, stamps }
    }

    /// What the system call reported fits this batch: no more datagrams than slots, and
    /// none longer than its buffer.
    pub open spec fn fits(self, received: Seq<(usize, Option<Timespec>)>) -> bool {
        &&& received.len() <= self.bufs@.len()
        &&& forall|i: int|
            0 <= i < received.len() ==> (#[trigger] received[i]).0 <= self.bufs@[i]@.len()
    }

    /// The slots hold datagrams of the given lengths and timestamps, and those beyond
    /// them nothing.
    pub open spec fn holds(self, received: Seq<(usize, Option<Timespec>)>) -> bool {
        &&& forall|i: int|
            0 <= i < self.bufs@.len() ==> #[trigger] self.lens@[i] == (if i < received.len() {
                received[i].0
            } else {
                0
            })
        &&& forall|i: int|
            0 <= i < self.bufs@.len() ==> #[trigger] self.stamps@[i] == (if i < received.len() {
                received[i].1
            } else {
                None
            })
        &&& forall|i: int|
            received.len() <= i < self.bufs@.len() ==> #[trigger] self.datagram(i)
                == Seq::<u8>::empty()
    }

    /// Notes a new batch: the first slots now hold datagrams of these lengths and with
    /// these timestamps, and the others nothing, whatever an earlier batch left there.
    pub fn note_batch(&mut self, received: &[(usize, Option<Timespec>)])
        requires
            old(self).wf(),
            old(self).fits(received@),
        ensures
            final(self).wf(),
            final(self).bufs == old(self).bufs,
            final(self).holds(received@),
    {
        let mut i: usize = 0;
        while i < self.bufs.len()
            invariant
                i <= self.bufs@.len(),
                self.wf(),
                self.bufs == old(self).bufs,
                self.fits(received@),
                forall|j: int|
                    0 <= j < i ==> #[trigger] self.lens@[j] == (if j < received@.len() {
                        received@[j].0
                    } else {
                        0
                    }),
                forall|j: int|
                    0 <= j < i ==> #[trigger] self.stamps@[j] == (if j < received@.len() {
                        received@[j].1
                    } else {
                        None
                    }),
            decreases self.bufs@.len() - i,
        {
            let (len, stamp): (usize, Option<Timespec>) = if i < received.len() {
                received[i]
            } else {
                (0, None)
            };
            self.lens.set(i, len);
            self.stamps.set(i, stamp);
            i = i + 1;
        }
        assert forall|j: int| received@.len() <= j < self.bufs@.len() implies #[trigger] self.datagram(
            j,
        ) == Seq::<u8>::empty() by {
            assert(self.lens@[j] == 0);
            assert(self.datagram(j) =~= Seq::<u8>::empty());
        }
    }

    /// Takes in a `recvmmsg` call on the buffers of this batch that returned `n`, failed
    /// with `error` if that is negative, and otherwise reported these lengths and
    /// timestamps. Returns the count actually received. On a timeout that is zero, so that
    /// the caller can poll cancellation without burning errors. A slot that the call did
    /// not fill is empty.
    pub fn recvmmsg(
        &mut self,
        n: i32,
        error: RecvErrorKind,
        received: &[(usize, Option<Timespec>)],
    ) -> (count: Result<usize, RecvErrorKind>)
        requires
            old(self).wf(),
            n >= 0 ==> received@.len() == n && old(self).fits(received@),
        ensures
            count == udp::outcome_of(n, error),
            final(self).wf(),
            final(self).bufs == old(self).bufs,
            final(self).holds(
                if n >= 0 {
                    received@
                } else {
                    Seq::empty()
                },
            ),
    {
        if n >= 0 {
            self.note_batch(received);
        } else {
            self.note_batch(&[]);
        }
        udp::batch_outcome(n, error)
    }

    /// Bytes of frame `i` from the most recent batch.
    pub fn frame(&self, i: usize) -> (bytes: &[u8])
        requires
            self.wf(),
            i < self.bufs@.len(),
        ensures
            bytes@ == self.datagram(i as int),
    {
        let len: usize = self.lens[i];
        &self.bufs[i].as_slice()[0..len]
    }

    /// Kernel timestamp of frame `i`, converted via `anchor`. Falls back to `now` if
    /// it is missing.
    pub fn timestamp(&self, i: usize, anchor: &ClockAnchor, now: Instant) -> (instant: Instant)
        requires
            self.wf(),
            i < self.bufs@.len(),
            self.stamps@[i as int] matches Some(ts) ==> anchor.can_convert(ts.nanos()),
        ensures
            instant == arrival_moment(*anchor, self.stamps@[i as int], now),
    {
        received_at(anchor, self.stamps[i], now)
    }
}

/// `len` zero bytes.
fn zeroed(len: usize) -> (bytes: Vec<u8>)
    ensures
        bytes@ == Seq::new(len as nat, |i: int| 0u8),
{
    let mut bytes: Vec<u8> = Vec::new();
    let mut i: usize = 0;
    while i < len
        invariant
            i <= len,
            bytes@ == Seq::new(i as nat, |j: int| 0u8),
        decreases len - i,
    {
        bytes.push(0);
        i = i + 1;
        assert(bytes@ =~= Seq::new(i as nat, |j: int| 0u8));
    }
    bytes
}

/// The anchor takes `ts_ns` to the moment that lies exactly as far from its instant
/// as `ts_ns` does from its realtime reading: the distance fits a duration, and
/// the moment can be represented.
pub open spec fn converts_exactly(anchor: ClockAnchor, ts_ns: int) -> bool {
    let delta = ts_ns - anchor.realtime_ns;
    &&& -DURATION_SPAN < delta < DURATION_SPAN
    &&& i128::MIN <= anchor.instant.nanos + delta
}

/// The anchor takes its own realtime reading to its own instant.
pub proof fn law_anchor_is_fixed(anchor: ClockAnchor)
    ensures
        anchor.converted(anchor.realtime_ns as int) == anchor.instant.nanos,
{
}

/// Conversion keeps distances, and so the order of timestamps: two kernel
/// timestamps lie as far apart after it as before.
pub proof fn law_conversion_keeps_distances(anchor: ClockAnchor, left_ns: int, right_ns: int)
    requires
        converts_exactly(anchor, left_ns),
        converts_exactly(anchor, right_ns),
    ensures
        anchor.converted(right_ns) - anchor.converted(left_ns) == right_ns - left_ns,
        anchor.converted(left_ns) <= anchor.converted(right_ns) <==> left_ns <= right_ns,
{
    lemma_converts_exactly(anchor, left_ns);
    lemma_converts_exactly(anchor, right_ns);
}

/// What exact conversion means for [`ClockAnchor::converted`].
proof fn lemma_converts_exactly(anchor: ClockAnchor, ts_ns: int)
    requires
        converts_exactly(anchor, ts_ns),
    ensures
        anchor.converted(ts_ns) == anchor.instant.nanos + (ts_ns - anchor.realtime_ns),
{
    let delta = ts_ns - anchor.realtime_ns;
    if delta >= 0 {
        assert(delta % (DURATION_SPAN as int) == delta) by (nonlinear_arith)
            requires
                0 <= delta < DURATION_SPAN,
        ;
    } else {
        assert((-delta) % (DURATION_SPAN as int) == -delta) by (nonlinear_arith)
            requires
                0 <= -delta < DURATION_SPAN,
        ;
    }
}

/// Kernel timestamps count seconds and nanoseconds from the unix epoch: the zero stamp is
/// the epoch, stamps of the same second lie as far apart as their nanoseconds, and a
/// second apart with the same nanoseconds is a thousand million nanoseconds apart.
pub proof fn law_stamps_count_seconds_and_nanos(left: Timespec, right: Timespec)
    ensures
        left.tv_sec == 0 && left.tv_nsec == 0 ==> left.nanos() == 0,
        left.tv_sec == right.tv_sec ==> right.nanos() - left.nanos() == right.tv_nsec
            - left.tv_nsec,
        right.tv_sec == left.tv_sec + 1 && right.tv_nsec == left.tv_nsec ==> right.nanos()
            - left.nanos() == 1_000_000_000,
        right.nanos() - left.nanos() == (right.tv_sec - left.tv_sec) * 1_000_000_000 + (
        right.tv_nsec - left.tv_nsec),
{
}

/// A datagram arrived as long after the anchor's instant as its kernel timestamp lies
/// after the anchor's realtime reading.
pub proof fn law_arrival_lies_as_its_stamp(anchor: ClockAnchor, ts: Timespec, now: Instant)
    requires
        -0x1_0000_0000_0000_0000 < ts.tv_sec * 1_000_000_000 + ts.tv_nsec - anchor.realtime_ns
            < 0x1_0000_0000_0000_0000,
        i128::MIN <= anchor.instant.nanos + (ts.tv_sec * 1_000_000_000 + ts.tv_nsec
            - anchor.realtime_ns) <= i128::MAX,
    ensures
        anchor.can_convert(ts.nanos()),
        arrival_moment(anchor, Some(ts), now).nanos - anchor.instant.nanos == ts.tv_sec
            * 1_000_000_000 + ts.tv_nsec - anchor.realtime_ns,
{
    lemma_converts_exactly(anchor, ts.nanos());
}

/// Arrivals are spaced and ordered as the second and nanosecond fields of their kernel
/// timestamps are.
pub proof fn law_arrivals_lie_as_their_stamps(
    anchor: ClockAnchor,
    left: Timespec,
    right: Timespec,
    now: Instant,
)
    requires
        -0x1_0000_0000_0000_0000 < left.tv_sec * 1_000_000_000 + left.tv_nsec - anchor.realtime_ns
            < 0x1_0000_0000_0000_0000,
        i128::MIN <= anchor.instant.nanos + (left.tv_sec * 1_000_000_000 + left.tv_nsec
            - anchor.realtime_ns) <= i128::MAX,
        -0x1_0000_0000_0000_0000 < right.tv_sec * 1_000_000_000 + right.tv_nsec - anchor.realtime_ns
            < 0x1_0000_0000_0000_0000,
        i128::MIN <= anchor.instant.nanos + (right.tv_sec * 1_000_000_000 + right.tv_nsec
            - anchor.realtime_ns) <= i128::MAX,
    ensures
        ({
            let left_at = arrival_moment(anchor, Some(left), now).nanos;
            let right_at = arrival_moment(anchor, Some(right), now).nanos;
            &&& right_at - left_at == (right.tv_sec - left.tv_sec) * 1_000_000_000 + (right.tv_nsec
                - left.tv_nsec)
            &&& 0 <= left.tv_nsec < 1_000_000_000 && 0 <= right.tv_nsec < 1_000_000_000 ==> (
            left_at < right_at <==> left.tv_sec < right.tv_sec || left.tv_sec == right.tv_sec
                && left.tv_nsec < right.tv_nsec)
        }),
{
    law_arrival_lies_as_its_stamp(anchor, left, now);
    law_arrival_lies_as_its_stamp(anchor, right, now);
}

/// A datagram without a kernel timestamp arrived when it was read.
pub proof fn law_unstamped_arrival_is_the_present(anchor: ClockAnchor, now: Instant)
    ensures
        arrival_moment(anchor, None, now) == now,
{
}

/// Conversion is exact up to 2^64 nanoseconds on either side of the anchor, except that a
/// moment too early to be represented becomes the anchor's own; beyond, it repeats itself
/// every 2^64 nanoseconds.
pub proof fn law_conversion_is_exact_and_repeats(anchor: ClockAnchor, delta: int)
    ensures
        0 <= delta < 0x1_0000_0000_0000_0000 ==> anchor.converted(anchor.realtime_ns + delta)
            == anchor.instant.nanos + delta,
        -0x1_0000_0000_0000_0000 < delta <= 0 ==> anchor.converted(anchor.realtime_ns + delta) == (
        if anchor.instant.nanos + delta >= i128::MIN {
            anchor.instant.nanos + delta
        } else {
            anchor.instant.nanos as int
        }),
        delta >= 0 ==> anchor.converted(anchor.realtime_ns + delta + 0x1_0000_0000_0000_0000)
            == anchor.converted(anchor.realtime_ns + delta),
        delta < 0 ==> anchor.converted(anchor.realtime_ns + delta - 0x1_0000_0000_0000_0000)
            == anchor.converted(anchor.realtime_ns + delta),
{
}

/// What can be converted: every timestamp before the anchor, and after it those whose
/// distance, counted modulo 2^64 nanoseconds, leads to a moment that can be represented;
/// on both sides only distances that fit an `i128`.
pub proof fn law_what_can_be_converted(anchor: ClockAnchor, delta: int)
    ensures
        -0x8000_0000_0000_0000_0000_0000_0000_0000 < delta < 0 ==> anchor.can_convert(
            anchor.realtime_ns + delta,
        ),
        0 <= delta < 0x1_0000_0000_0000_0000 ==> (anchor.can_convert(anchor.realtime_ns + delta)
            <==> anchor.instant.nanos + delta <= i128::MAX),
        0 <= delta < 0x7fff_ffff_ffff_ffff_0000_0000_0000_0000 ==> (anchor.can_convert(
            anchor.realtime_ns + delta + 0x1_0000_0000_0000_0000,
        ) <==> anchor.can_convert(anchor.realtime_ns + delta)),
        delta > 0x7fff_ffff_ffff_ffff_ffff_ffff_ffff_ffff || delta
            <= -0x8000_0000_0000_0000_0000_0000_0000_0000 ==> !anchor.can_convert(
            anchor.realtime_ns + delta,
        ),
{
}

/// A clock shows up to 2^64 seconds on either side of its origin.
pub proof fn law_clock_range_is_two_to_the_64_seconds(nanos: int)
    ensures
        within_clock_range(nanos) <==> -0x1_0000_0000_0000_0000 * 1_000_000_000 < nanos
            < 0x1_0000_0000_0000_0000 * 1_000_000_000,
{
}

/// Distances from the epoch count the same before it as after it, with the sign turned,
/// in seconds and nanoseconds.
pub proof fn law_epoch_distances_are_signed(left: (u64, u32), right: (u64, u32))
    ensures
        signed_nanos(Ok((0, 0))) == 0,
        signed_nanos(Ok(right)) - signed_nanos(Ok(left)) == (right.0 - left.0) * 1_000_000_000 + (
        right.1 - left.1),
        signed_nanos(Err(left)) == -signed_nanos(Ok(left)),
{
}

/// A reading of the realtime clock counts the seconds and nanoseconds of its distance from
/// the unix epoch, before it downwards.
pub proof fn law_realtime_counts_from_the_epoch(reading: std::time::SystemTime, nanos: int)
    ensures
        match epoch_distance(reading) {
            Ok(after) => epoch_nanos(reading) == after.0 * 1_000_000_000 + after.1,
            Err(before) => epoch_nanos(reading) + before.0 * 1_000_000_000 + before.1 == 0,
        },
        shows_realtime(nanos) <==> exists|other: std::time::SystemTime|
            match #[trigger] epoch_distance(other) {
                Ok(after) => nanos == after.0 * 1_000_000_000 + after.1,
                Err(before) => nanos + before.0 * 1_000_000_000 + before.1 == 0,
            },
{
    if shows_realtime(nanos) {
        let other = choose|other: std::time::SystemTime| nanos == #[trigger] epoch_nanos(other);
        assert(match epoch_distance(other) {
            Ok(after) => nanos == after.0 * 1_000_000_000 + after.1,
            Err(before) => nanos + before.0 * 1_000_000_000 + before.1 == 0,
        });
    }
    if exists|other: std::time::SystemTime|
        match #[trigger] epoch_distance(other) {
            Ok(after) => nanos == after.0 * 1_000_000_000 + after.1,
            Err(before) => nanos + before.0 * 1_000_000_000 + before.1 == 0,
        } {
        let other = choose|other: std::time::SystemTime|
            match #[trigger] epoch_distance(other) {
                Ok(after) => nanos == after.0 * 1_000_000_000 + after.1,
                Err(before) => nanos + before.0 * 1_000_000_000 + before.1 == 0,
            };
        assert(nanos == epoch_nanos(other));
    }
}

/// A batch is consistent where every slot has a length and a timestamp and no length is
/// beyond its buffer.
pub proof fn law_lengths_within_the_buffers_are_consistent(batch: BatchRecv)
    requires
        batch.lens@.len() == batch.bufs@.len(),
        batch.stamps@.len() == batch.bufs@.len(),
        forall|i: int|
            0 <= i < batch.bufs@.len() ==> #[trigger] batch.lens@[i] <= batch.bufs@[i]@.len(),
    ensures
        batch.wf(),
{
}

/// A slot's datagram is as long as the slot's length says, and each of its bytes is that
/// of the buffer at the same place.
pub proof fn law_datagram_is_the_front_of_its_buffer(batch: BatchRecv, i: int)
    requires
        batch.wf(),
        0 <= i < batch.bufs@.len(),
    ensures
        batch.lens@[i] <= batch.bufs@[i]@.len(),
        batch.lens@.len() == batch.bufs@.len(),
        batch.stamps@.len() == batch.bufs@.len(),
        batch.datagram(i).len() == batch.lens@[i],
        forall|j: int|
            0 <= j < batch.lens@[i] ==> #[trigger] batch.datagram(i)[j] == batch.bufs@[i]@[j],
{
}

/// After a batch was noted, every slot that it filled shows the front of its buffer at the
/// reported length, with the reported timestamp, and every other slot is empty and
/// unstamped.
pub proof fn law_batch_shows_what_was_received(
    batch: BatchRecv,
    received: Seq<(usize, Option<Timespec>)>,
    i: int,
)
    requires
        batch.wf(),
        received.len() <= batch.bufs@.len(),
        batch.holds(received),
        0 <= i < batch.bufs@.len(),
    ensures
        i < received.len() ==> {
            &&& batch.datagram(i) == batch.bufs@[i]@.subrange(0, received[i].0 as int)
            &&& batch.stamps@[i] == received[i].1
        },
        i >= received.len() ==> batch.datagram(i).len() == 0 && batch.stamps@[i] is None,
{
    assert(batch.lens@[i] <= batch.bufs@[i]@.len());
    if i < received.len() {
        assert(batch.datagram(i) =~= batch.bufs@[i]@.subrange(0, received[i].0 as int));
    }
}

/// Whatever the system call can report fits: no more datagrams than slots, and none longer
/// than its buffer.
pub proof fn law_reports_within_the_buffers_fit(
    batch: BatchRecv,
    received: Seq<(usize, Option<Timespec>)>,
)
    requires
        received.len() <= batch.bufs@.len(),
        forall|i: int|
            0 <= i < received.len() ==> (#[trigger] received[i]).0 <= batch.bufs@[i]@.len(),
    ensures
        batch.fits(received),
{
}

/// Arrivals repeat themselves as conversion does: on the same side of the anchor, timestamps
/// that lie 2^64 nanoseconds apart give the same arrival, and one too early to be represented
/// gives the anchor's instant.
pub proof fn law_arrivals_repeat(anchor: ClockAnchor, left: Timespec, right: Timespec, now: Instant)
    ensures
        ({
            let left_delta = left.tv_sec * 1_000_000_000 + left.tv_nsec - anchor.realtime_ns;
            let right_delta = right.tv_sec * 1_000_000_000 + right.tv_nsec - anchor.realtime_ns;
            let same_side = left_delta >= 0 && right_delta >= 0 || left_delta < 0 && right_delta < 0;
            &&& same_side && right_delta - left_delta == 0x1_0000_0000_0000_0000 ==> arrival_moment(
                anchor,
                Some(left),
                now,
            ) == arrival_moment(anchor, Some(right), now)
            &&& -0x1_0000_0000_0000_0000 < left_delta < 0 && anchor.instant.nanos + left_delta
                < i128::MIN ==> arrival_moment(anchor, Some(left), now) == anchor.instant
            &&& anchor.can_convert(left.nanos()) ==> arrival_moment(anchor, Some(left), now).nanos
                == anchor.converted(left.nanos())
        }),
{
}

/// A batch whose slots have the reported lengths and timestamps, and nothing beyond them,
/// holds what was received.
pub proof fn law_reported_slots_hold_what_was_received(
    batch: BatchRecv,
    received: Seq<(usize, Option<Timespec>)>,
)
    requires
        batch.wf(),
        received.len() <= batch.bufs@.len(),
        forall|i: int|
            0 <= i < received.len() ==> batch.lens@[i] == (#[trigger] received[i]).0
                && batch.stamps@[i] == received[i].1,
        forall|i: int|
            received.len() <= i < batch.bufs@.len() ==> #[trigger] batch.lens@[i] == 0
                && batch.stamps@[i] is None,
    ensures
        batch.holds(received),
{
    assert forall|i: int| 0 <= i < batch.bufs@.len() implies #[trigger] batch.stamps@[i] == (if i
        < received.len() {
        received[i].1
    } else {
        None
    }) by {
        if i < received.len() {
            assert(batch.lens@[i] == received[i].0);
        } else {
            assert(batch.lens@[i] == 0);
        }
    }
    assert forall|i: int| received.len() <= i < batch.bufs@.len() implies #[trigger] batch.datagram(
        i,
    ) == Seq::<u8>::empty() by {
        assert(batch.lens@[i] == 0);
        assert(batch.datagram(i) =~= Seq::<u8>::empty());
    }
}

} // verus!

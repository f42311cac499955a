//! Moments of the monotonic clock.
use vstd::prelude::*;

verus! {

/// Nanoseconds in a second.
pub const NANOS_PER_SEC: i128 = 1_000_000_000;

/// A moment of the monotonic clock, in nanoseconds after the origin of the
/// [`MonotonicClock`] it was read from. Moments before the origin are negative.
#[derive(Clone, Copy, Debug, PartialEq, Eq, Structural)]
pub struct Instant {
    pub nanos: i128,
}

impl Instant {
    /// Whether this moment lies strictly before `other`.
    pub fn is_before(self, other: Instant) -> (before: bool)
        ensures
            before == (self.nanos < other.nanos),
    {
        self.nanos < other.nanos
    }
}

/// A reading of the operating system's monotonic clock.
#[verifier::external_type_specification]
#[verifier::external_body]
pub struct ExStdInstant(std::time::Instant);

/// Reads the monotonic clock with `std::time::Instant::now`. What it reads is up
/// to the machine, so nothing is claimed of it.
#[verifier::external_body]
fn std_instant_now() -> std::time::Instant {
    std::time::Instant::now()
}

/// Time from the reading `earlier` to the reading `later`, as whole seconds and the
/// nanoseconds beyond them, as `std::time::Instant::saturating_duration_since` counts
/// it.
pub uninterp spec fn time_between(earlier: std::time::Instant, later: std::time::Instant) -> (
    u64,
    u32,
);

/// `std::time::Instant::saturating_duration_since`: the time from `earlier` to `later`,
/// whose fraction is less than one second. It depends on the two readings alone.
#[verifier::external_body]
fn std_time_between(earlier: &std::time::Instant, later: &std::time::Instant) -> (between: (
    u64,
    u32,
))
    ensures
        between == time_between(*earlier, *later),
        between.1 < 1_000_000_000,
{
    let between = later.saturating_duration_since(*earlier);
    (between.as_secs(), between.subsec_nanos())
}

/// The time line that [`Instant`]s lie on: the monotonic clock, counted from the
/// moment at which this value was made.
#[derive(Clone, Copy)]
pub struct MonotonicClock {
    origin: std::time::Instant,
}

/// Seconds and nanoseconds as nanoseconds.
pub open spec fn total_nanos(secs: int, nanos: int) -> int {
    secs * NANOS_PER_SEC + nanos
}

/// The moment `secs` seconds and `nanos` nanoseconds after the origin.
pub fn instant_after_origin(secs: u64, nanos: u32) -> (instant: Instant)
    ensures
        instant.nanos == total_nanos(secs as int, nanos as int),
{
    Instant { nanos: secs as i128 * NANOS_PER_SEC + nanos as i128 }
}

impl MonotonicClock {
    /// The reading from which this time line counts.
    pub closed spec fn origin(self) -> std::time::Instant {
        self.origin
    }

    /// Where `reading` lies on this time line, in nanoseconds after the origin.
    pub open spec fn nanos_at(self, reading: std::time::Instant) -> int {
        let (secs, nanos) = time_between(self.origin(), reading);
        total_nanos(secs as int, nanos as int)
    }

    /// `instant` is the moment of a reading of the monotonic clock on this time line.
    pub open spec fn shows(self, instant: Instant) -> bool {
        exists|reading: std::time::Instant| instant.nanos == #[trigger] self.nanos_at(reading)
    }

    /// The time line whose origin is `reading`.
    pub fn counting_from(reading: std::time::Instant) -> (clock: MonotonicClock)
        ensures
            clock.origin() == reading,
    {
        MonotonicClock { origin: reading }
    }

    /// Starts a time line whose origin is the present moment. Which reading that is, is
    /// up to the machine.
    pub fn start() -> MonotonicClock {
        MonotonicClock::counting_from(std_instant_now())
    }

    /// The moment of `reading` on this time line.
    pub fn moment_of(&self, reading: std::time::Instant) -> (instant: Instant)
        ensures
            instant.nanos == self.nanos_at(reading),
            0 <= instant.nanos <= total_nanos(u64::MAX as int, 999_999_999),
    {
        let (secs, nanos) = std_time_between(&self.origin, &reading);
        instant_after_origin(secs, nanos)
    }

    /// The present moment on this time line. It never lies before the origin.
    pub fn now(&self) -> (instant: Instant)
        ensures
            self.shows(instant),
            0 <= instant.nanos <= total_nanos(u64::MAX as int, 999_999_999),
    {
        self.moment_of(std_instant_now())
    }
}

/// Seconds and nanoseconds add up as on a clock: nothing is zero, a nanosecond more
/// counts one, and a second more a thousand million.
pub proof fn law_seconds_and_nanos_add_up(secs: int, nanos: int, more: int)
    ensures
        total_nanos(0, 0) == 0,
        total_nanos(secs, nanos + more) == total_nanos(secs, nanos) + more,
        total_nanos(secs + more, nanos) == total_nanos(secs, nanos) + more * 1_000_000_000,
{
}

/// Moments on a time line lie as far apart as the times from its origin say, and the
/// reading no time after the origin lies at zero.
pub proof fn law_moments_lie_as_their_readings(
    clock: MonotonicClock,
    left: std::time::Instant,
    right: std::time::Instant,
)
    ensures
        ({
            let (left_secs, left_nanos) = time_between(clock.origin(), left);
            let (right_secs, right_nanos) = time_between(clock.origin(), right);
            &&& clock.nanos_at(right) - clock.nanos_at(left) == (right_secs - left_secs)
                * 1_000_000_000 + (right_nanos - left_nanos)
            &&& left_secs == 0 && left_nanos == 0 ==> clock.nanos_at(left) == 0
            &&& left_nanos < 1_000_000_000 && right_nanos < 1_000_000_000 ==> (clock.nanos_at(left)
                < clock.nanos_at(right) <==> left_secs < right_secs || left_secs == right_secs
                && left_nanos < right_nanos)
        }),
{
}

/// A moment shown on a time line is some reading's time from the origin, in nanoseconds.
pub proof fn law_shown_moments_are_times_from_the_origin(clock: MonotonicClock, instant: Instant)
    ensures
        clock.shows(instant) <==> exists|reading: std::time::Instant|
            instant.nanos == (#[trigger] time_between(clock.origin(), reading)).0 * 1_000_000_000
                + time_between(clock.origin(), reading).1,
{
    if clock.shows(instant) {
        let reading = choose|reading: std::time::Instant|
            instant.nanos == #[trigger] clock.nanos_at(reading);
        assert(instant.nanos == time_between(clock.origin(), reading).0 * 1_000_000_000
            + time_between(clock.origin(), reading).1);
    }
    if exists|reading: std::time::Instant|
        instant.nanos == (#[trigger] time_between(clock.origin(), reading)).0 * 1_000_000_000
            + time_between(clock.origin(), reading).1 {
        let reading = choose|reading: std::time::Instant|
            instant.nanos == (#[trigger] time_between(clock.origin(), reading)).0 * 1_000_000_000
                + time_between(clock.origin(), reading).1;
        assert(instant.nanos == clock.nanos_at(reading));
    }
}

} // verus!

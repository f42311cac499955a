//! Moments of civil time, as token lifetimes are given in them.
use chrono::TimeZone;
use vstd::prelude::*;

use crate::clock;
use crate::sources::kernel_ts;

verus! {

/// First second that `chrono` can express: the start of the year -262143.
pub const MIN_UTC_SECS: i64 = -8_334_601_228_800;

/// Last second that `chrono` can express: the end of the year 262142.
pub const MAX_UTC_SECS: i64 = 8_210_266_876_799;

/// `secs` seconds since the unix epoch and `nanos` nanoseconds beyond them are a
/// moment that can be expressed. The nanoseconds may run on for a second more in
/// the last second of a minute, to stand for a leap second.
pub open spec fn valid_utc(secs: i64, nanos: u32) -> bool {
    &&& MIN_UTC_SECS <= secs <= MAX_UTC_SECS
    &&& nanos < 1_000_000_000 || nanos < 2_000_000_000 && secs as int % 60 == 59
}

/// A moment of civil time: seconds since the unix epoch, and the nanoseconds beyond
/// them.
#[derive(Clone, Copy, Debug, PartialEq, Eq, Structural)]
pub struct UtcTime {
    secs: i64,
    nanos: u32,
}

/// `chrono::TimeZone::timestamp_opt` on `Utc`: the moment with these seconds and
/// nanoseconds, given back as its `timestamp` and `timestamp_subsec_nanos`; none
/// where they are out of range.
#[verifier::external_body]
fn chrono_timestamp_opt(secs: i64, nanos: u32) -> (moment: Option<(i64, u32)>)
    ensures
        moment == (if valid_utc(secs, nanos) {
            Some((secs, nanos))
        } else {
            None
        }),
{
    let moment = chrono::Utc.timestamp_opt(secs, nanos).single();
    moment.map(|at| (at.timestamp(), at.timestamp_subsec_nanos()))
}

/// A system clock that reads `nanos` nanoseconds after the unix epoch stands within the
/// moments from the epoch on that can be expressed.
pub open spec fn expressible(nanos: int) -> bool {
    0 <= nanos < clock::total_nanos(MAX_UTC_SECS + 1, 0)
}

/// Whether a system clock that reads `nanos` nanoseconds after the unix epoch stands
/// within the moments from the epoch on that can be expressed.
pub fn is_expressible(nanos: i128) -> (within: bool)
    ensures
        within == expressible(nanos as int),
{
    0 <= nanos && nanos < (MAX_UTC_SECS as i128 + 1) * clock::NANOS_PER_SEC
}

/// `moment` is the one at which the system clock reads `nanos` nanoseconds after the unix
/// epoch; none where that lies outside what can be expressed from the epoch on.
pub open spec fn is_at(moment: Option<UtcTime>, nanos: int) -> bool {
    match moment {
        Some(at) => {
            &&& expressible(nanos)
            &&& at.subsec_nanos() < 1_000_000_000
            &&& clock::total_nanos(at.seconds() as int, at.subsec_nanos() as int) == nanos
        },
        None => !expressible(nanos),
    }
}

/// Leap seconds that lie between two moments by their times of day: one counts where
/// the moment with the earlier time of day stands in a leap second.
pub open spec fn leap_seconds_between(
    later_secs: i64,
    later_nanos: u32,
    earlier_secs: i64,
    earlier_nanos: u32,
) -> int {
    let later_of_day = later_secs as int % 86400;
    let earlier_of_day = earlier_secs as int % 86400;
    if later_of_day > earlier_of_day && earlier_nanos >= 1_000_000_000 {
        1
    } else if later_of_day < earlier_of_day && later_nanos >= 1_000_000_000 {
        -1
    } else {
        0
    }
}

/// `chrono`'s difference of two moments (`DateTime - DateTime`), as the whole seconds
/// and the nanoseconds of the resulting `TimeDelta`, which add up to the difference
/// of the moments in nanoseconds, leap seconds counted.
#[verifier::external_body]
fn chrono_difference(later: (i64, u32), earlier: (i64, u32)) -> (delta: (i64, i32))
    requires
        valid_utc(later.0, later.1),
        valid_utc(earlier.0, earlier.1),
    ensures
        clock::total_nanos(delta.0 as int, delta.1 as int) == clock::total_nanos(
            later.0 - earlier.0 + leap_seconds_between(later.0, later.1, earlier.0, earlier.1),
            later.1 - earlier.1,
        ),
{
    let later = chrono::Utc.timestamp_opt(later.0, later.1).unwrap();
    let earlier = chrono::Utc.timestamp_opt(earlier.0, earlier.1).unwrap();
    let delta = later - earlier;
    (delta.num_seconds(), delta.subsec_nanos())
}

impl UtcTime {
    /// Every value stands for a moment that can be expressed.
    #[verifier::type_invariant]
    spec fn inv(self) -> bool {
        valid_utc(self.secs, self.nanos)
    }

    /// Seconds since the unix epoch.
    pub closed spec fn seconds(self) -> i64 {
        self.secs
    }

    /// Nanoseconds beyond [`UtcTime::seconds`].
    pub closed spec fn subsec_nanos(self) -> u32 {
        self.nanos
    }

    /// Nanoseconds from `earlier` to this moment.
    pub open spec fn nanos_since(self, earlier: UtcTime) -> int {
        clock::total_nanos(
            self.seconds() - earlier.seconds() + leap_seconds_between(
                self.seconds(),
                self.subsec_nanos(),
                earlier.seconds(),
                earlier.subsec_nanos(),
            ),
            self.subsec_nanos() - earlier.subsec_nanos(),
        )
    }

    /// The moment with these seconds and nanoseconds, if it can be expressed.
    pub fn from_timestamp(secs: i64, nanos: u32) -> (moment: Option<UtcTime>)
        ensures
            match moment {
                Some(at) => valid_utc(secs, nanos) && at.seconds() == secs && at.subsec_nanos()
                    == nanos,
                None => !valid_utc(secs, nanos),
            },
    {
        match chrono_timestamp_opt(secs, nanos) {
            Some((secs, nanos)) => Some(UtcTime { secs, nanos }),
            None => None,
        }
    }

    /// The moment at which the system clock reads `nanos` nanoseconds after the unix
    /// epoch; none where that lies before the epoch or after the last moment that can be
    /// expressed.
    pub fn at_reading(nanos: i128) -> (moment: Option<UtcTime>)
        ensures
            is_at(moment, nanos as int),
    {
        if !is_expressible(nanos) {
            return None;
        }
        let secs: i64 = (nanos / clock::NANOS_PER_SEC) as i64;
        let rest: u32 = (nanos % clock::NANOS_PER_SEC) as u32;
        UtcTime::from_timestamp(secs, rest)
    }

    /// The present moment by the system clock, as [`UtcTime::at_reading`] gives it. Which
    /// reading that is, is up to the machine.
    pub fn now() -> (moment: Option<UtcTime>)
        ensures
            exists|reading: std::time::SystemTime|
                is_at(moment, #[trigger] kernel_ts::epoch_nanos(reading)),
    {
        UtcTime::at_reading(kernel_ts::realtime_ns_now())
    }

    /// The unix epoch.
    pub fn epoch() -> (moment: UtcTime)
        ensures
            moment.seconds() == 0,
            moment.subsec_nanos() == 0,
    {
        UtcTime { secs: 0, nanos: 0 }
    }

    /// Seconds since the unix epoch and the nanoseconds beyond them.
    pub fn timestamp(&self) -> (parts: (i64, u32))
        ensures
            parts == (self.seconds(), self.subsec_nanos()),
            valid_utc(parts.0, parts.1),
    {
        proof {
            use_type_invariant(self);
        }
        (self.secs, self.nanos)
    }

    /// Whether this moment lies less than `secs` seconds after `now`, or not after it
    /// at all.
    pub fn is_within(&self, secs: u32, now: &UtcTime) -> (within: bool)
        ensures
            within == (self.nanos_since(*now) < clock::total_nanos(secs as int, 0)),
    {
        proof {
            use_type_invariant(self);
            use_type_invariant(now);
        }
        let (whole, rest) = chrono_difference((self.secs, self.nanos), (now.secs, now.nanos));
        (whole as i128) * clock::NANOS_PER_SEC + (rest as i128) < (secs as i128)
            * clock::NANOS_PER_SEC
    }
}

/// Moments run from the start of the year -262143 to the end of the year 262142, second by
/// second and nanosecond by nanosecond; the last second of a minute, and no other, may take
/// up two.
pub proof fn law_moments_that_can_be_expressed(secs: i64, nanos: u32)
    ensures
        -8_334_601_228_800 <= secs <= 8_210_266_876_799 && nanos < 1_000_000_000 ==> valid_utc(
            secs,
            nanos,
        ),
        -8_334_601_228_800 <= secs <= 8_210_266_876_799 && 1_000_000_000 <= nanos < 2_000_000_000
            ==> (valid_utc(secs, nanos) <==> (secs + 1) % 60 == 0),
        nanos >= 2_000_000_000 ==> !valid_utc(secs, nanos),
        secs < -8_334_601_228_800 || secs > 8_210_266_876_799 ==> !valid_utc(secs, nanos),
{
}

/// A reading of the system clock stands for the moment with its whole seconds and the
/// nanoseconds beyond them, and for none before the epoch or after the year 262142.
pub proof fn law_reading_stands_for_its_seconds_and_nanos(moment: Option<UtcTime>, nanos: int)
    requires
        is_at(moment, nanos),
    ensures
        moment is Some <==> 0 <= nanos < 8_210_266_876_800 * 1_000_000_000,
        moment matches Some(at) ==> at.seconds() == nanos / 1_000_000_000 && at.subsec_nanos()
            == nanos % 1_000_000_000,
{
}

/// Readings from the epoch to the end of the year 262142 can be expressed, and no others.
pub proof fn law_readings_that_can_be_expressed(nanos: int)
    ensures
        expressible(nanos) <==> 0 <= nanos < 8_210_266_876_800 * 1_000_000_000,
{
}

/// The time from one moment to another is that back with the sign turned. Outside leap
/// seconds it is the difference of their seconds and nanoseconds. From a moment in a leap
/// second to one outside of a later time of day it is a second more.
pub proof fn law_time_between_moments(left: UtcTime, right: UtcTime)
    ensures
        right.nanos_since(left) == -left.nanos_since(right),
        left.subsec_nanos() < 1_000_000_000 && right.subsec_nanos() < 1_000_000_000
            ==> right.nanos_since(left) == (right.seconds() - left.seconds()) * 1_000_000_000 + (
        right.subsec_nanos() - left.subsec_nanos()),
        left.subsec_nanos() >= 1_000_000_000 && right.seconds() as int % 86400 > left.seconds() as int
            % 86400 ==> right.nanos_since(left) == (right.seconds() - left.seconds() + 1)
            * 1_000_000_000 + (right.subsec_nanos() - left.subsec_nanos()),
        left.subsec_nanos() >= 1_000_000_000 && right.subsec_nanos() < 1_000_000_000
            && right.seconds() as int % 86400 <= left.seconds() as int % 86400
            ==> right.nanos_since(left) == (right.seconds() - left.seconds()) * 1_000_000_000 + (
        right.subsec_nanos() - left.subsec_nanos()),
        left.subsec_nanos() >= 1_000_000_000 && right.seconds() as int % 86400 == left.seconds()
            as int % 86400 ==> right.nanos_since(left) == (right.seconds() - left.seconds())
            * 1_000_000_000 + (right.subsec_nanos() - left.subsec_nanos()),
{
}

} // verus!

//! Times of day, instants, and the correction of the simulator's clock
//! reading by half the round trip.
//!
//! Calendar and clock come from `chrono`; this module holds what the
//! protocol computes from them, on plain numbers.

use chrono::{DateTime, NaiveTime, Timelike, Utc};
use std::time::SystemTime;
use vstd::arithmetic::div_mod::{lemma_fundamental_div_mod, lemma_fundamental_div_mod_converse};
use vstd::prelude::*;

verus! {

/// The nanoseconds of one second.
pub const NANOS_PER_SECOND: u64 = 1_000_000_000;

/// The nanoseconds of one day.
pub const NANOS_PER_DAY: u64 = 86_400_000_000_000;

/// A time of day, to the nanosecond, without a date or a time zone.
#[derive(Debug, Clone, Copy, PartialEq, Eq, PartialOrd, Ord, Hash)]
pub struct TimeOfDay {
    nanos: u64,
}

impl TimeOfDay {
    #[verifier::type_invariant]
    spec fn within_a_day(self) -> bool {
        self.nanos < NANOS_PER_DAY
    }

    /// The nanoseconds since midnight: the value of this time.
    pub closed spec fn nanos(self) -> nat {
        self.nanos as nat
    }

    /// The time that lies `nanos` nanoseconds after midnight; `None` from a
    /// whole day on.
    pub fn from_nanos(nanos: u64) -> (r: Option<TimeOfDay>)
        ensures
            match r {
                Some(time) => nanos < NANOS_PER_DAY && time.nanos() == nanos,
                None => nanos >= NANOS_PER_DAY,
            },
    {
        if nanos < NANOS_PER_DAY {
            Some(TimeOfDay { nanos })
        } else {
            None
        }
    }

    /// The time `hour:minute:second.milli`; `None` where a part is out of
    /// its range.
    pub fn from_hms_milli(hour: u32, minute: u32, second: u32, milli: u32) -> (r: Option<TimeOfDay>)
        ensures
            match r {
                Some(time) => {
                    &&& hour < 24 && minute < 60 && second < 60 && milli < 1000
                    &&& time.nanos() == ((hour * 60 + minute) * 60 + second) * 1_000_000_000
                        + milli * 1_000_000
                },
                None => !(hour < 24 && minute < 60 && second < 60 && milli < 1000),
            },
    {
        if hour < 24 && minute < 60 && second < 60 && milli < 1000 {
            let seconds: u64 = ((hour * 60 + minute) * 60 + second) as u64;
            Some(TimeOfDay { nanos: seconds * NANOS_PER_SECOND + (milli as u64) * 1_000_000 })
        } else {
            None
        }
    }

    /// The time that lies `seconds` whole seconds and `nanos` nanoseconds
    /// after midnight; `None` where that is a whole day or more, or `nanos`
    /// is a whole second or more.
    pub fn from_seconds(seconds: u32, nanos: u32) -> (r: Option<TimeOfDay>)
        ensures
            match r {
                Some(time) => seconds < 86_400 && nanos < NANOS_PER_SECOND && time.nanos()
                    == seconds * 1_000_000_000 + nanos,
                None => !(seconds < 86_400 && nanos < NANOS_PER_SECOND),
            },
    {
        if seconds < 86_400 && (nanos as u64) < NANOS_PER_SECOND {
            Some(TimeOfDay { nanos: (seconds as u64) * NANOS_PER_SECOND + (nanos as u64) })
        } else {
            None
        }
    }

    /// The nanoseconds since midnight.
    pub fn nanos_since_midnight(&self) -> (r: u64)
        ensures
            r == self.nanos(),
            r < NANOS_PER_DAY,
    {
        proof {
            use_type_invariant(self);
        }
        self.nanos
    }

    /// The hour, from 0 to 23.
    pub fn hour(&self) -> (r: u32)
        ensures
            r == self.nanos() / 3_600_000_000_000,
            r < 24,
    {
        proof {
            use_type_invariant(self);
        }
        (self.nanos / 3_600_000_000_000) as u32
    }

    /// The minute of the hour, from 0 to 59.
    pub fn minute(&self) -> (r: u32)
        ensures
            r == (self.nanos() / 60_000_000_000) % 60,
            r < 60,
    {
        proof {
            use_type_invariant(self);
        }
        ((self.nanos / 60_000_000_000) % 60) as u32
    }

    /// The second of the minute, from 0 to 59.
    pub fn second(&self) -> (r: u32)
        ensures
            r == (self.nanos() / 1_000_000_000) % 60,
            r < 60,
    {
        proof {
            use_type_invariant(self);
        }
        ((self.nanos / NANOS_PER_SECOND) % 60) as u32
    }

    /// The nanoseconds of the second, below a thousand million.
    pub fn nanosecond(&self) -> (r: u32)
        ensures
            r == self.nanos() % 1_000_000_000,
            r < 1_000_000_000,
    {
        (self.nanos % NANOS_PER_SECOND) as u32
    }

    /// The time of day that lies `nanos` nanoseconds before this one (after
    /// it, for a negative number), around the clock: before midnight comes
    /// the end of the day.
    pub fn minus(self, nanos: i128) -> (r: TimeOfDay)
        ensures
            r.nanos() == (self.nanos() - nanos) % (NANOS_PER_DAY as int),
    {
        proof {
            use_type_invariant(self);
        }
        let day: i128 = NANOS_PER_DAY as i128;
        // the shift reduced to less than a day, as a shift backwards
        let back: i128 = if nanos >= 0 {
            nanos % day
        } else if nanos == i128::MIN {
            // no magnitude of its own: one day more is the same shift
            let m: i128 = (-(nanos + day)) % day;
            if m == 0 {
                0
            } else {
                day - m
            }
        } else {
            let m: i128 = (-nanos) % day;
            if m == 0 {
                0
            } else {
                day - m
            }
        };
        assert(0 <= back < day && back == (nanos as int) % (day as int)) by {
            lemma_mod_of_shift(nanos as int, day as int);
        }
        let at: i128 = self.nanos as i128;
        let result: i128 = if at >= back {
            at - back
        } else {
            at + day - back
        };
        assert(result == (at - nanos) % (day as int)) by {
            lemma_mod_difference(at as int, nanos as int, day as int);
        }
        TimeOfDay { nanos: result as u64 }
    }
}

/// The remainder of a negative number, from that of its magnitude.
proof fn lemma_mod_of_shift(x: int, d: int)
    requires
        d > 0,
    ensures
        x < 0 && (-x) % d == 0 ==> x % d == 0,
        x < 0 && (-x) % d != 0 ==> x % d == d - (-x) % d,
        x < 0 ==> (-(x + d)) % d == (-x) % d,
{
    if x < 0 {
        let q = (-x) / d;
        let m = (-x) % d;
        lemma_fundamental_div_mod(-x, d);
        assert(d * q == q * d) by (nonlinear_arith);
        assert((-q) * d == -(q * d)) by (nonlinear_arith);
        assert((-q - 1) * d == -(q * d) - d) by (nonlinear_arith);
        assert((q - 1) * d == q * d - d) by (nonlinear_arith);
        if m == 0 {
            lemma_fundamental_div_mod_converse(x, d, -q, 0);
        } else {
            lemma_fundamental_div_mod_converse(x, d, -q - 1, d - m);
        }
        lemma_fundamental_div_mod_converse(-(x + d), d, q - 1, m);
    }
}

/// A difference around the clock, from the remainder of what is taken off.
proof fn lemma_mod_difference(at: int, x: int, d: int)
    requires
        d > 0,
        0 <= at < d,
    ensures
        at >= x % d ==> (at - x) % d == at - x % d,
        at < x % d ==> (at - x) % d == at + d - x % d,
{
    let q = x / d;
    let m = x % d;
    lemma_fundamental_div_mod(x, d);
    assert(d * q == q * d) by (nonlinear_arith);
    assert((-q) * d == -(q * d)) by (nonlinear_arith);
    assert((-q - 1) * d == -(q * d) - d) by (nonlinear_arith);
    if at >= m {
        lemma_fundamental_div_mod_converse(at - x, d, -q, at - m);
    } else {
        lemma_fundamental_div_mod_converse(at - x, d, -q - 1, at + d - m);
    }
}

/// A reading of the clock: seconds since the start of 1970 in UTC, and
/// nanoseconds beyond them.
#[derive(Debug, Clone, Copy, PartialEq, Eq, Structural)]
pub struct Instant {
    pub seconds: i64,
    pub nanos: u32,
}

impl Instant {
    /// The nanoseconds since the start of 1970.
    pub open spec fn since_epoch(self) -> int {
        self.seconds * 1_000_000_000 + self.nanos
    }

    /// The nanoseconds from `earlier` to this instant; negative where this
    /// one is the earlier.
    pub fn since(&self, earlier: &Instant) -> (r: i128)
        ensures
            r == self.since_epoch() - earlier.since_epoch(),
    {
        let seconds: i128 = self.seconds as i128 - earlier.seconds as i128;
        assert(seconds * 1_000_000_000 == self.seconds * 1_000_000_000 - earlier.seconds
            * 1_000_000_000) by (nonlinear_arith)
            requires
                seconds == self.seconds - earlier.seconds,
        ;
        seconds * 1_000_000_000 + (self.nanos as i128 - earlier.nanos as i128)
    }
}

/// Half of `nanos`, rounded down.
pub open spec fn half(nanos: int) -> int {
    nanos / 2
}

/// The time of day that the simulator's clock showed when it answered,
/// judged by the middle of the exchange: the reported `time`, less half of
/// what passed between `sent` and `received`.
pub open spec fn corrected(time: nat, sent: Instant, received: Instant) -> int {
    (time - half(received.since_epoch() - sent.since_epoch())) % (NANOS_PER_DAY as int)
}

/// Corrects the simulator's clock reading `time` by half the round trip
/// that the exchange took from `sent` to `received`.
pub fn corrected_time(time: TimeOfDay, sent: Instant, received: Instant) -> (r: TimeOfDay)
    ensures
        r.nanos() == corrected(time.nanos(), sent, received),
{
    let elapsed = received.since(&sent);
    let correction: i128 = if elapsed >= 0 {
        elapsed / 2
    } else {
        -((1 - elapsed) / 2)
    };
    assert(correction == half(elapsed as int)) by {
        if elapsed < 0 {
            let e = elapsed as int;
            assert(e / 2 == -((1 - e) / 2)) by (nonlinear_arith)
                requires
                    e < 0,
            ;
        }
    }
    time.minus(correction)
}

/// The correction takes off no more than half the round trip and adds
/// nothing: where the clock did not run backwards during the exchange and
/// the corrected time stays within the day, it lies between the reported
/// time less half the round trip and the reported time.
pub proof fn lemma_correction_is_bounded(time: nat, sent: Instant, received: Instant)
    requires
        time < NANOS_PER_DAY,
        sent.since_epoch() <= received.since_epoch(),
        half(received.since_epoch() - sent.since_epoch()) <= time,
    ensures
        corrected(time, sent, received) == time - half(
            received.since_epoch() - sent.since_epoch(),
        ),
        2 * time - (received.since_epoch() - sent.since_epoch()) <= 2 * corrected(
            time,
            sent,
            received,
        ),
        corrected(time, sent, received) <= time,
{
    let rtt = received.since_epoch() - sent.since_epoch();
    let value = time - half(rtt);
    assert(0 <= value < NANOS_PER_DAY);
    assert(value % (NANOS_PER_DAY as int) == value) by (nonlinear_arith)
        requires
            0 <= value < NANOS_PER_DAY,
    ;
}

/// The time of day of the instant that lies `millis` milliseconds after
/// the start of 1970 in UTC, as whole seconds since midnight and
/// nanoseconds beyond them; `None` for an instant that `chrono` cannot
/// represent.
pub uninterp spec fn timestamp_time(millis: int) -> Option<(u32, u32)>;

/// The time of day of a timestamp in milliseconds.
///
/// Calls `chrono::DateTime::from_timestamp_millis` and takes the time of
/// the result. `chrono` refuses instants beyond the years it can count;
/// for the others the seconds since midnight are those of the timestamp's
/// whole seconds within their day, and the nanoseconds those of its
/// milliseconds beyond the whole second.
#[verifier::external_body]
pub(crate) fn time_of_timestamp(millis: i64) -> (r: Option<(u32, u32)>)
    ensures
        r == timestamp_time(millis as int),
        r matches Some((seconds, nanos)) ==> seconds == (millis as int / 1000) % 86_400 && nanos
            == (millis as int % 1000) * 1_000_000,
{
    DateTime::from_timestamp_millis(millis).map(
        |at| (at.time().num_seconds_from_midnight(), at.time().nanosecond()),
    )
}

/// The time of day that `text` gives as hours and minutes, as whole seconds
/// since midnight and nanoseconds beyond them; `None` for text that
/// `chrono` does not read as `%H:%M`.
pub uninterp spec fn hours_minutes_time(text: Seq<char>) -> Option<(u32, u32)>;

/// Reads a time of day written as hours and minutes.
///
/// Calls `chrono::NaiveTime::parse_from_str` with the format `%H:%M`. A
/// time read this way has neither seconds nor nanoseconds.
#[verifier::external_body]
pub(crate) fn time_of_hours_minutes(text: &str) -> (r: Option<(u32, u32)>)
    ensures
        r == hours_minutes_time(text@),
        r matches Some((seconds, nanos)) ==> seconds < 86_400 && seconds % 60 == 0 && nanos == 0,
{
    NaiveTime::parse_from_str(text, "%H:%M").ok().map(
        |time| (time.num_seconds_from_midnight(), time.nanosecond()),
    )
}

/// Reads the clock.
///
/// Calls `std::time::SystemTime::now` and turns the reading into a
/// `chrono::DateTime<Utc>` by `chrono`'s `From<SystemTime>`, which counts a
/// reading before 1970 as a negative timestamp. Nothing is claimed of the
/// reading: two readings need not even be in order.
#[verifier::external_body]
pub(crate) fn now() -> Instant {
    let at = DateTime::<Utc>::from(SystemTime::now());
    Instant { seconds: at.timestamp(), nanos: at.timestamp_subsec_nanos() }
}

} // verus!

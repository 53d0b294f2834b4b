use crate::error::Error;
use crate::time::{time_of_timestamp, timestamp_time, TimeOfDay};
use vstd::arithmetic::div_mod::{lemma_fundamental_div_mod, lemma_fundamental_div_mod_converse};
use vstd::prelude::*;
use vstd::string::StringExecFns;

verus! {

/// A time of day written as a timestamp: the milliseconds since the start
/// of 1970, of which only the time of day is kept.
pub struct NaiveTimeMilliSeconds;

impl NaiveTimeMilliSeconds {
    /// The time of day, in nanoseconds since midnight, of the instant
    /// `millis` milliseconds after the start of 1970.
    pub open spec fn time(millis: int) -> nat {
        ((millis % 86_400_000) * 1_000_000) as nat
    }

    /// The time of day of the timestamp `millis`.
    ///
    /// `Err(Error::Xml(_))` for a timestamp beyond the years that the
    /// calendar can count.
    pub fn deserialize_as(millis: i64) -> (r: Result<TimeOfDay, Error>)
        ensures
            match r {
                Ok(time) => timestamp_time(millis as int) is Some && time.nanos()
                    == NaiveTimeMilliSeconds::time(millis as int),
                Err(e) => timestamp_time(millis as int) is None && e is Xml,
            },
    {
        match time_of_timestamp(millis) {
            Some((seconds, nanos)) => {
                proof {
                    lemma_time_of_day(millis as int);
                }
                match TimeOfDay::from_seconds(seconds, nanos) {
                    Some(time) => Ok(time),
                    None => Err(Error::Xml(String::from_str("the timestamp is out of range"))),
                }
            },
            None => Err(Error::Xml(String::from_str("the timestamp is out of range"))),
        }
    }
}

/// The seconds within the day and the milliseconds within the second make
/// up the milliseconds within the day.
pub proof fn lemma_time_of_day(millis: int)
    ensures
        0 <= (millis / 1000) % 86_400 < 86_400,
        0 <= millis % 1000 < 1000,
        ((millis / 1000) % 86_400) * 1000 + millis % 1000 == millis % 86_400_000,
{
    let seconds = millis / 1000;
    let days = seconds / 86_400;
    let within = seconds % 86_400;
    lemma_fundamental_div_mod(millis, 1000);
    lemma_fundamental_div_mod(seconds, 86_400);
    assert(millis == days * 86_400_000 + (within * 1000 + millis % 1000)) by (nonlinear_arith)
        requires
            millis == 1000 * seconds + millis % 1000,
            seconds == 86_400 * days + within,
    ;
    lemma_fundamental_div_mod_converse(millis, 86_400_000, days, within * 1000 + millis % 1000);
}

} // verus!

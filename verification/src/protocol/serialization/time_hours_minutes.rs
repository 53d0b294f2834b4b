use crate::error::Error;
use crate::time::{hours_minutes_time, time_of_hours_minutes, TimeOfDay};
use vstd::prelude::*;
use vstd::string::StringExecFns;

verus! {

/// A time of day written as hours and minutes, `HH:MM`.
pub struct NaiveTimeHoursMinutes;

impl NaiveTimeHoursMinutes {
    /// The time of day that `text` writes as hours and minutes: a whole
    /// minute of the day.
    ///
    /// `Err(Error::Xml(_))` for text that does not read as `HH:MM`.
    pub fn deserialize_as(text: &str) -> (r: Result<TimeOfDay, Error>)
        ensures
            match r {
                Ok(time) => {
                    &&& time.nanos() % 60_000_000_000 == 0
                    &&& hours_minutes_time(text@) matches Some((seconds, nanos))
                        && time.nanos() == seconds * 1_000_000_000 + nanos
                },
                Err(e) => hours_minutes_time(text@) is None && e is Xml,
            },
    {
        match time_of_hours_minutes(text) {
            Some((seconds, nanos)) => match TimeOfDay::from_seconds(seconds, nanos) {
                Some(time) => Ok(time),
                None => Err(Error::Xml(String::from_str("the time is out of range"))),
            },
            None => Err(Error::Xml(String::from_str("the time does not read as hours and minutes"))),
        }
    }
}

} // verus!

//! How the times of the protocol are written.

mod time_hours_minutes;
mod time_milli_seconds;

pub use time_hours_minutes::NaiveTimeHoursMinutes;
pub use time_milli_seconds::NaiveTimeMilliSeconds;

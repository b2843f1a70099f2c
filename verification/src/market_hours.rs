//! Market-hours gating: the regular session of the US stock market, by the
//! wall clock of New York.

use vstd::prelude::*;

verus! {

/// The wall clock of New York at the instant `seconds` and `nanos` after the
/// Unix epoch, as chrono and the time zone tables of chrono-tz give it: the
/// day of the week counted from Monday as 0, the seconds since midnight, and
/// the nanoseconds of the second. `None` where chrono has no such instant.
pub uninterp spec fn new_york_clock(seconds: i64, nanos: u32) -> Option<(u32, u32, u32)>;

/// Calls chrono's `DateTime::from_timestamp` for the instant and
/// `DateTime::with_timezone` with `chrono_tz::America::New_York`, and reads
/// the result with `Datelike::weekday`, `Timelike::num_seconds_from_midnight`
/// and `Timelike::nanosecond`.
///
/// Trusted: the result is taken to be a function of the instant alone, which
/// is what `new_york_clock` names. The zone tables are compiled into
/// chrono-tz; nothing of the machine enters. Nothing is claimed of the clock
/// that comes back.
#[verifier::external_body]
fn chrono_new_york_clock(seconds: i64, nanos: u32) -> (r: Option<(u32, u32, u32)>)
    ensures
        r == new_york_clock(seconds, nanos),
{
    match chrono::DateTime::from_timestamp(seconds, nanos) {
        Some(utc) => {
            let local = utc.with_timezone(&chrono_tz::America::New_York);
            Some(
                (
                    chrono::Datelike::weekday(&local).num_days_from_monday(),
                    chrono::Timelike::num_seconds_from_midnight(&local),
                    chrono::Timelike::nanosecond(&local),
                ),
            )
        },
        None => None,
    }
}

/// Half past nine in the morning, in seconds since midnight.
pub const SESSION_OPEN: u32 = 34_200;

/// Half past three in the afternoon, in seconds since midnight.
pub const SESSION_CLOSE: u32 = 55_800;

/// The session runs on the five days from Monday, from the opening to the
/// close, both instants counted in.
pub open spec fn in_session(weekday: u32, seconds: u32, nanos: u32) -> bool {
    &&& weekday < 5
    &&& seconds >= SESSION_OPEN
    &&& (seconds < SESSION_CLOSE || (seconds == SESSION_CLOSE && nanos == 0))
}

/// Whether the market is open at a wall-clock time of New York: `weekday`
/// counts from Monday as 0, `seconds` from midnight.
pub fn market_is_open(weekday: u32, seconds: u32, nanos: u32) -> (open: bool)
    ensures
        open == in_session(weekday, seconds, nanos),
{
    weekday < 5 && seconds >= SESSION_OPEN && (seconds < SESSION_CLOSE || (seconds
        == SESSION_CLOSE && nanos == 0))
}

/// Whether the US stock market is open at the instant `seconds` and `nanos`
/// after the Unix epoch. An instant that chrono cannot represent counts as
/// closed.
pub fn is_us_stock_market_open(seconds: i64, nanos: u32) -> (open: bool)
    ensures
        open == (match new_york_clock(seconds, nanos) {
            Some((weekday, second_of_day, nano)) => in_session(weekday, second_of_day, nano),
            None => false,
        }),
{
    match chrono_new_york_clock(seconds, nanos) {
        Some((weekday, second_of_day, nano)) => market_is_open(weekday, second_of_day, nano),
        None => false,
    }
}

} // verus!

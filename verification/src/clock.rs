//! The wall clock: readings in whole seconds since the Unix epoch, and
//! their text in UTC.

use crate::text::digit_char;
use vstd::prelude::*;

verus! {

/// The pattern that writes the time of day: hours, minutes, seconds.
pub const TIME_OF_DAY: &'static str = "%H:%M:%S";

/// The pattern that writes day and month before the time of day.
pub const DAY_AND_TIME: &'static str = "%d/%m %H:%M:%S";

/// The number `n`, below a hundred, written with two digits.
pub open spec fn two_digits(n: int) -> Seq<char> {
    seq![digit_char((n / 10) as nat), digit_char((n % 10) as nat)]
}

/// The time of day in UTC at the instant `secs` seconds after the Unix
/// epoch: hours, minutes and seconds since the last midnight, two digits
/// each, with colons between them. A day has 86400 seconds, and an instant
/// before the epoch counts from the midnight before it.
pub open spec fn time_of_day_text(secs: int) -> Seq<char> {
    let since_midnight = secs % 86400;
    two_digits(since_midnight / 3600) + seq![':'] + two_digits((since_midnight / 60) % 60) + seq![':']
        + two_digits(since_midnight % 60)
}

/// The text of the instant `secs` seconds after the Unix epoch, in UTC, as
/// `chrono` writes it for `pattern`; `None` for an instant that `chrono`
/// cannot represent.
pub uninterp spec fn utc_text(secs: int, pattern: Seq<char>) -> Option<Seq<char>>;

/// Reads the wall clock: `std::time::SystemTime::now`, turned into a
/// `chrono::DateTime<Utc>` by chrono's `From<SystemTime>`, of which
/// `DateTime::timestamp` gives the whole non-leap seconds since the Unix
/// epoch. The conversion counts backwards for a clock that is set before
/// 1970. Nothing is claimed of the value: the clock may stand anywhere and
/// may step backwards between two readings.
#[verifier::external_body]
pub(crate) fn utc_now_seconds() -> (secs: i64) {
    chrono::DateTime::<chrono::Utc>::from(std::time::SystemTime::now()).timestamp()
}

/// Writes an instant in UTC: `chrono::DateTime::from_timestamp` makes the
/// instant from `secs` and no nanoseconds, and `DateTime::format` writes it
/// for `pattern`. The text is a function of the two arguments and goes by
/// the name [`utc_text`]; `None` is what `from_timestamp` answers for
/// seconds out of its range. For the time-of-day pattern the text is
/// stated: chrono writes hour, minute and second of the seconds since
/// midnight, each padded with a zero to two digits. The patterns are held to
/// the two above, which `chrono` parses without error.
#[verifier::external_body]
pub(crate) fn format_utc(secs: i64, pattern: &str) -> (text: Option<String>)
    requires
        pattern@ == TIME_OF_DAY@ || pattern@ == DAY_AND_TIME@,
    ensures
        match text {
            Some(t) => {
                &&& utc_text(secs as int, pattern@) == Some(t@)
                &&& pattern@ == TIME_OF_DAY@ ==> t@ == time_of_day_text(secs as int)
            },
            None => utc_text(secs as int, pattern@) is None,
        },
{
    match chrono::DateTime::from_timestamp(secs, 0) {
        Some(instant) => Some(instant.format(pattern).to_string()),
        None => None,
    }
}

} // verus!

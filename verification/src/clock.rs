//! The clock, and the date that a time stamp has in UTC. Both come from `chrono`.

use chrono::{DateTime, Utc};
use vstd::prelude::*;

use crate::calendar;
use crate::calendar::CivilDate;
use crate::text;

verus! {

/// The first millisecond of the years that `chrono` holds (1 January -262143), from 1970 on.
pub const MIN_MILLIS: i64 = -8_334_601_228_800_000;

/// The last millisecond of the years that `chrono` holds (31 December 262142), from 1970 on.
pub const MAX_MILLIS: i64 = 8_210_266_876_799_999;

/// Whether a time stamp lies in the years that `chrono` holds.
pub open spec fn representable(millis: int) -> bool {
    MIN_MILLIS <= millis <= MAX_MILLIS
}

/// Whether the clock can show this time: one from 1970 on, in the years that `chrono` holds.
pub open spec fn clock_reading(millis: int) -> bool {
    0 <= millis && representable(millis)
}

/// Whether the clock has shown this time. Outside this module that is known only of what a reading
/// of the clock has returned; nothing follows from it but that the clock can show the time.
pub closed spec fn shown_by_clock(millis: int) -> bool {
    clock_reading(millis)
}

/// A time that the clock has shown is one that it can show.
pub proof fn law_shown_times_are_readings(millis: int)
    requires
        shown_by_clock(millis),
    ensures
        clock_reading(millis),
{
}

/// The UTC date of a time stamp, as `YYYY-MM-DD`.
pub open spec fn date_text(millis: int) -> Seq<char> {
    calendar::civil_date(calendar::utc_day(millis)).text()
}

/// The current time in milliseconds since 1970: `chrono::Utc::now`, taken by
/// `DateTime::timestamp_millis`.
///
/// Trusted: the time that comes back is not before 1970 and lies in the years that `chrono` holds;
/// `Utc::now` panics where the system clock stands before 1970 or after those years. That is also
/// all that [`shown_by_clock`] claims of it. Which time it is depends on that clock, and nothing more
/// is said of it.
#[verifier::external_body]
pub(crate) fn utc_now_millis() -> (millis: i64)
    ensures
        clock_reading(millis as int),
        shown_by_clock(millis as int),
{
    Utc::now().timestamp_millis()
}

/// A time stamp written by `chrono::DateTime::format`, after
/// `DateTime::from_timestamp_millis` has read it.
///
/// Trusted: with the pattern `%Y-%m-%d`, the text is the date of the time stamp in UTC, in the
/// proleptic Gregorian calendar: the year with at least four digits (and its sign before the
/// year 0 and after 9999), the month and the day with two. The pattern is fixed because
/// `to_string` panics on one that `chrono` cannot read.
#[verifier::external_body]
pub(crate) fn format_utc(millis: i64, pattern: &str) -> (text: String)
    requires
        representable(millis as int),
        pattern@ == "%Y-%m-%d"@,
    ensures
        text@ == date_text(millis as int),
{
    DateTime::from_timestamp_millis(millis).unwrap().format(pattern).to_string()
}

/// The date of every time stamp of a day is written as the four digits of the year, the two of the
/// month and the two of the day, with hyphens between them, for the years from 0 to 9999.
pub proof fn law_date_written(date: CivilDate, millis: int)
    requires
        date.valid(),
        0 <= date.year < 10_000,
        date.day_number() * 86_400_000 <= millis < (date.day_number() + 1) * 86_400_000,
    ensures
        ({
            let text = date_text(millis);
            &&& text.len() == 10
            &&& text[0] as int == 48 + date.year / 1000
            &&& text[1] as int == 48 + date.year / 100 % 10
            &&& text[2] as int == 48 + date.year / 10 % 10
            &&& text[3] as int == 48 + date.year % 10
            &&& text[4] == '-'
            &&& text[5] as int == 48 + date.month / 10
            &&& text[6] as int == 48 + date.month % 10
            &&& text[7] == '-'
            &&& text[8] as int == 48 + date.day / 10
            &&& text[9] as int == 48 + date.day % 10
        }),
{
    assert(calendar::utc_day(millis) == date.day_number());
    calendar::law_one_date_per_day(date, calendar::utc_day(millis));
    text::lemma_padded_places(date.year as nat);
    text::lemma_padded_places(date.month as nat);
    text::lemma_padded_places(date.day as nat);
}

} // verus!

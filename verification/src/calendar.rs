//! The proleptic Gregorian calendar: which date a day has, and how a date is written.

use vstd::prelude::*;

use crate::text;

verus! {

/// The length of a UTC day in milliseconds.
pub const MILLIS_PER_DAY: i64 = 86_400_000;

/// A calendar date. The year 0 is the year before the year 1.
pub struct CivilDate {
    pub year: int,
    pub month: int,
    pub day: int,
}

/// Whether the year has a 29th of February.
pub open spec fn is_leap_year(year: int) -> bool {
    year % 4 == 0 && (year % 100 != 0 || year % 400 == 0)
}

/// The length of a month in days.
pub open spec fn days_in_month(year: int, month: int) -> int {
    if month == 2 {
        if is_leap_year(year) {
            29
        } else {
            28
        }
    } else if month == 4 || month == 6 || month == 9 || month == 11 {
        30
    } else {
        31
    }
}

/// The days of the year that lie before the first of the month.
pub open spec fn days_before_month(year: int, month: int) -> int
    decreases month,
{
    if month <= 1 {
        0
    } else {
        days_before_month(year, month - 1) + days_in_month(year, month - 1)
    }
}

/// The days from the 1st of January of the year 1 to that of the given year.
pub open spec fn days_before_year(year: int) -> int {
    365 * (year - 1) + (year - 1) / 4 - (year - 1) / 100 + (year - 1) / 400
}

impl CivilDate {
    /// Whether the calendar has this date.
    pub open spec fn valid(self) -> bool {
        &&& 1 <= self.month <= 12
        &&& 1 <= self.day <= days_in_month(self.year, self.month)
    }

    /// The number of days from the 1st of January 1970 to this date.
    pub open spec fn day_number(self) -> int {
        days_before_year(self.year) + days_before_month(self.year, self.month) + (self.day - 1)
            - days_before_year(1970)
    }

    /// The date as `YYYY-MM-DD`. A year before 0 or after 9999 carries its sign in front.
    pub open spec fn text(self) -> Seq<char> {
        year_text(self.year) + seq!['-'] + text::zero_padded(self.month as nat, 2) + seq!['-']
            + text::zero_padded(self.day as nat, 2)
    }
}

/// A year with at least four digits, and with its sign where four unsigned digits do not hold it.
pub open spec fn year_text(year: int) -> Seq<char> {
    if year < 0 {
        seq!['-'] + text::zero_padded((-year) as nat, 4)
    } else if year < 10_000 {
        text::zero_padded(year as nat, 4)
    } else {
        seq!['+'] + text::zero_padded(year as nat, 4)
    }
}

/// The day, counted from the 1st of January 1970, in which a UTC time stamp falls.
pub open spec fn utc_day(millis: int) -> int {
    millis / (MILLIS_PER_DAY as int)
}

/// The date of the day with the given number.
pub open spec fn civil_date(day_number: int) -> CivilDate {
    choose|date: CivilDate| #[trigger] date.valid() && date.day_number() == day_number
}

/// One year is 365 or 366 days long.
proof fn lemma_year_length(year: int)
    ensures
        days_before_year(year + 1) - days_before_year(year) == 365 + (if is_leap_year(year) {
            1int
        } else {
            0
        }),
        days_before_month(year, 12) + 31 == 365 + (if is_leap_year(year) {
            1int
        } else {
            0
        }),
{
    reveal_with_fuel(days_before_month, 13);
}

/// Years begin in their order.
proof fn lemma_years_in_order(early: int, late: int)
    requires
        early <= late,
    ensures
        days_before_year(early) <= days_before_year(late),
    decreases late - early,
{
    if early < late {
        lemma_year_length(early);
        lemma_years_in_order(early + 1, late);
    }
}

/// Months begin in their order, each after the days of those before it.
proof fn lemma_months_in_order(year: int, early: int, late: int)
    requires
        1 <= early < late <= 13,
    ensures
        days_before_month(year, early) + days_in_month(year, early) <= days_before_month(year, late),
    decreases late - early,
{
    if early + 1 < late {
        lemma_months_in_order(year, early + 1, late);
    }
}

/// A date lies inside its year.
proof fn lemma_inside_year(date: CivilDate)
    requires
        date.valid(),
    ensures
        days_before_year(date.year) <= date.day_number() + days_before_year(1970)
            < days_before_year(date.year + 1),
{
    lemma_year_length(date.year);
    reveal_with_fuel(days_before_month, 2);
    if date.month < 12 {
        lemma_months_in_order(date.year, date.month, 12);
    }
    if date.month > 1 {
        lemma_months_in_order(date.year, 1, date.month);
    }
}

/// No two dates share a day.
proof fn lemma_date_unique(left: CivilDate, right: CivilDate)
    requires
        left.valid(),
        right.valid(),
        left.day_number() == right.day_number(),
    ensures
        left == right,
{
    lemma_inside_year(left);
    lemma_inside_year(right);
    if left.year < right.year {
        lemma_years_in_order(left.year + 1, right.year);
    } else if right.year < left.year {
        lemma_years_in_order(right.year + 1, left.year);
    } else if left.month < right.month {
        lemma_months_in_order(left.year, left.month, right.month);
    } else if right.month < left.month {
        lemma_months_in_order(left.year, right.month, left.month);
    }
}

/// The date after a date.
proof fn lemma_next_date(date: CivilDate) -> (next: CivilDate)
    requires
        date.valid(),
    ensures
        next.valid(),
        next.day_number() == date.day_number() + 1,
{
    lemma_year_length(date.year);
    reveal_with_fuel(days_before_month, 2);
    if date.day < days_in_month(date.year, date.month) {
        CivilDate { day: date.day + 1, ..date }
    } else if date.month < 12 {
        CivilDate { month: date.month + 1, day: 1, ..date }
    } else {
        CivilDate { year: date.year + 1, month: 1, day: 1 }
    }
}

/// The date before a date.
proof fn lemma_previous_date(date: CivilDate) -> (previous: CivilDate)
    requires
        date.valid(),
    ensures
        previous.valid(),
        previous.day_number() == date.day_number() - 1,
{
    lemma_year_length(date.year - 1);
    reveal_with_fuel(days_before_month, 2);
    if date.day > 1 {
        CivilDate { day: date.day - 1, ..date }
    } else if date.month > 1 {
        CivilDate {
            month: date.month - 1,
            day: days_in_month(date.year, date.month - 1),
            ..date
        }
    } else {
        CivilDate { year: date.year - 1, month: 12, day: 31 }
    }
}

/// Every day has a date.
proof fn lemma_date_exists(day_number: int) -> (date: CivilDate)
    ensures
        date.valid(),
        date.day_number() == day_number,
    decreases
        if day_number < 0 {
            -day_number
        } else {
            day_number
        },
{
    if day_number == 0 {
        reveal_with_fuel(days_before_month, 2);
        CivilDate { year: 1970, month: 1, day: 1 }
    } else if day_number > 0 {
        let previous = lemma_date_exists(day_number - 1);
        lemma_next_date(previous)
    } else {
        let next = lemma_date_exists(day_number + 1);
        lemma_previous_date(next)
    }
}

/// The date of a day exists in the calendar and falls on that day.
pub proof fn lemma_civil_date(day_number: int)
    ensures
        civil_date(day_number).valid(),
        civil_date(day_number).day_number() == day_number,
{
    let date = lemma_date_exists(day_number);
    assert(date.valid() && date.day_number() == day_number);
}

/// Days and dates correspond one to one: a date is the date of its own day, and of no other.
pub proof fn law_one_date_per_day(date: CivilDate, day_number: int)
    requires
        date.valid(),
    ensures
        civil_date(day_number) == date <==> date.day_number() == day_number,
{
    lemma_civil_date(day_number);
    if date.day_number() == day_number {
        lemma_date_unique(date, civil_date(day_number));
    }
}

/// A written year has a digit in every place but the first, which may be a sign.
proof fn lemma_year_text(year: int)
    ensures
        year_text(year).len() >= 4,
        forall|i: int|
            1 <= i < year_text(year).len() ==> text::is_digit(#[trigger] year_text(year)[i]),
        0 <= year < 10_000 ==> text::is_digit(year_text(year)[0]) && text::numeral(year_text(year))
            == year,
        year < 0 ==> year_text(year)[0] == '-' && text::numeral(year_text(year).drop_first())
            == -year,
        year >= 10_000 ==> year_text(year)[0] == '+' && text::numeral(year_text(year).drop_first())
            == year,
{
    if year < 0 {
        text::lemma_zero_padded((-year) as nat, 4);
        assert(year_text(year).drop_first() =~= text::zero_padded((-year) as nat, 4));
    } else {
        text::lemma_zero_padded(year as nat, 4);
        if year >= 10_000 {
            assert(year_text(year).drop_first() =~= text::zero_padded(year as nat, 4));
        }
    }
}

/// A written date can be told from what follows it after a hyphen.
pub proof fn lemma_date_text_read_back(
    left: CivilDate,
    left_rest: Seq<char>,
    right: CivilDate,
    right_rest: Seq<char>,
)
    requires
        left.valid(),
        right.valid(),
        left.text() + seq!['-'] + left_rest == right.text() + seq!['-'] + right_rest,
    ensures
        left == right,
        left_rest == right_rest,
{
    let (left_year, right_year) = (year_text(left.year), year_text(right.year));
    let left_whole = left.text() + seq!['-'] + left_rest;
    let right_whole = right.text() + seq!['-'] + right_rest;
    let width = left_year.len() as int;
    lemma_year_text(left.year);
    lemma_year_text(right.year);
    lemma_two_digits(left);
    lemma_two_digits(right);
    // The first hyphen after the first place ends the year.
    assert(left_whole[width] == '-');
    assert(right_whole[right_year.len() as int] == '-');
    if width < right_year.len() {
        assert(right_whole[width] == right_year[width]);
    } else if right_year.len() < width {
        assert(left_whole[right_year.len() as int] == left_year[right_year.len() as int]);
    }
    assert(left_year =~= left_whole.take(width));
    assert(right_year =~= right_whole.take(width));
    assert(text::zero_padded(left.month as nat, 2) =~= left_whole.subrange(width + 1, width + 3));
    assert(text::zero_padded(right.month as nat, 2) =~= right_whole.subrange(width + 1, width + 3));
    assert(text::zero_padded(left.day as nat, 2) =~= left_whole.subrange(width + 4, width + 6));
    assert(text::zero_padded(right.day as nat, 2) =~= right_whole.subrange(width + 4, width + 6));
    assert(left_rest =~= left_whole.skip(width + 7));
    assert(right_rest =~= right_whole.skip(width + 7));
}

/// The month and the day of a date take two places each, and can be read back.
proof fn lemma_two_digits(date: CivilDate)
    requires
        date.valid(),
    ensures
        text::zero_padded(date.month as nat, 2).len() == 2,
        text::zero_padded(date.day as nat, 2).len() == 2,
        text::numeral(text::zero_padded(date.month as nat, 2)) == date.month,
        text::numeral(text::zero_padded(date.day as nat, 2)) == date.day,
{
    text::lemma_two_places(date.month as nat);
    text::lemma_two_places(date.day as nat);
    text::lemma_zero_padded(date.month as nat, 2);
    text::lemma_zero_padded(date.day as nat, 2);
}

} // verus!

use vstd::prelude::*;

verus! {

/// The first year that `chrono`'s `NaiveDate` represents.
pub const MIN_YEAR: i32 = -262143;

/// The last year that `chrono`'s `NaiveDate` represents.
pub const MAX_YEAR: i32 = 262142;

/// A year of the proleptic Gregorian calendar is a leap year.
pub open spec fn is_leap_year(year: int) -> bool {
    year % 4 == 0 && (year % 100 != 0 || year % 400 == 0)
}

/// The number of days of a month (1..=12) of a year.
pub open spec fn days_in_month(year: int, month: int) -> int {
    if month == 2 {
        if is_leap_year(year) {
            29
        } else {
            28
        }
    } else if month == 4 || month == 6 || month == 9 || month == 11 {
        30
    } else {
        31
    }
}

/// A calendar date that exists and that `chrono` can represent.
pub open spec fn is_valid_date(year: int, month: int, day: int) -> bool {
    &&& MIN_YEAR <= year <= MAX_YEAR
    &&& 1 <= month <= 12
    &&& 1 <= day <= days_in_month(year, month)
}

/// The number of days from 0001-01-01 to the first day of `year`.
pub open spec fn days_before_year(year: int) -> int {
    let y = year - 1;
    365 * y + y / 4 - y / 100 + y / 400
}

/// The number of days from the first day of `year` to the first day of `month`.
pub open spec fn days_before_month(year: int, month: int) -> int {
    let common: int = if month == 1 {
        0
    } else if month == 2 {
        31
    } else if month == 3 {
        59
    } else if month == 4 {
        90
    } else if month == 5 {
        120
    } else if month == 6 {
        151
    } else if month == 7 {
        181
    } else if month == 8 {
        212
    } else if month == 9 {
        243
    } else if month == 10 {
        273
    } else if month == 11 {
        304
    } else {
        334
    };
    if month > 2 && is_leap_year(year) {
        common + 1
    } else {
        common
    }
}

/// The day of the week of a date, counted from Monday = 0 to Sunday = 6
/// (0001-01-01 of the proleptic Gregorian calendar is a Monday).
pub open spec fn weekday_from_monday(year: int, month: int, day: int) -> int {
    (days_before_year(year) + days_before_month(year, month) + day - 1) % 7
}

/// Which days exist: days 1 to 28 of every month of a year in range; the 29th
/// except in February of a common year; the 30th except in February; the
/// 31st only in January, March, May, July, August, October and December; no
/// day 0 and no day after the 31st.
pub proof fn lemma_calendar_days(year: int, month: int, day: int)
    requires
        MIN_YEAR <= year <= MAX_YEAR,
        1 <= month <= 12,
    ensures
        1 <= day <= 28 ==> is_valid_date(year, month, day),
        day == 29 ==> (is_valid_date(year, month, day) <==> (month != 2 || is_leap_year(year))),
        day == 30 ==> (is_valid_date(year, month, day) <==> month != 2),
        day == 31 ==> (is_valid_date(year, month, day) <==> (month == 1 || month == 3 || month == 5
            || month == 7 || month == 8 || month == 10 || month == 12)),
        (day < 1 || day > 31) ==> !is_valid_date(year, month, day),
{
}

/// The leap years are those divisible by 4, except centuries not divisible by 400.
pub proof fn lemma_leap_years(year: int)
    ensures
        year % 400 == 0 ==> is_leap_year(year),
        year % 100 == 0 && year % 400 != 0 ==> !is_leap_year(year),
        year % 4 == 0 && year % 100 != 0 ==> is_leap_year(year),
        year % 4 != 0 ==> !is_leap_year(year),
{
}

/// The date after a date: the next day of the month, else the first of the
/// next month, else the first of January of the next year.
pub open spec fn next_date(year: int, month: int, day: int) -> (int, int, int) {
    if day < days_in_month(year, month) {
        (year, month, day + 1)
    } else if month < 12 {
        (year, month + 1, 1)
    } else {
        (year + 1, 1, 1)
    }
}

proof fn lemma_days_before_next_year(year: int)
    ensures
        days_before_year(year + 1) == days_before_year(year) + if is_leap_year(year) {
            366int
        } else {
            365int
        },
{
    let y = year - 1;
    assert(year / 4 - y / 4 == if year % 4 == 0 { 1int } else { 0int }) by {
        vstd::arithmetic::div_mod::lemma_fundamental_div_mod(year, 4);
        vstd::arithmetic::div_mod::lemma_fundamental_div_mod(y, 4);
    }
    assert(year / 100 - y / 100 == if year % 100 == 0 { 1int } else { 0int }) by {
        vstd::arithmetic::div_mod::lemma_fundamental_div_mod(year, 100);
        vstd::arithmetic::div_mod::lemma_fundamental_div_mod(y, 100);
    }
    assert(year / 400 - y / 400 == if year % 400 == 0 { 1int } else { 0int }) by {
        vstd::arithmetic::div_mod::lemma_fundamental_div_mod(year, 400);
        vstd::arithmetic::div_mod::lemma_fundamental_div_mod(y, 400);
    }
    assert(year % 400 == 0 ==> year % 100 == 0 && year % 4 == 0);
    assert(year % 100 == 0 ==> year % 4 == 0);
}

/// Consecutive days have consecutive weekdays: the day after a valid date
/// is one weekday later (Sunday is followed by Monday), across month and
/// year ends, leap days included.
pub proof fn lemma_next_day_next_weekday(year: int, month: int, day: int)
    requires
        is_valid_date(year, month, day),
    ensures
        ({
            let (y, m, d) = next_date(year, month, day);
            weekday_from_monday(y, m, d) == (weekday_from_monday(year, month, day) + 1) % 7
        }),
{
    let (y, m, d) = next_date(year, month, day);
    let n = days_before_year(year) + days_before_month(year, month) + day - 1;
    if day < days_in_month(year, month) {
    } else if month < 12 {
        assert(days_before_month(year, month + 1) == days_before_month(year, month) + days_in_month(
            year,
            month,
        ));
    } else {
        lemma_days_before_next_year(year);
        assert(days_before_year(year + 1) + days_before_month(year + 1, 1) + 1 - 1 == n + 1);
    }
    assert(days_before_year(y) + days_before_month(y, m) + d - 1 == n + 1);
    assert((n + 1) % 7 == (n % 7 + 1) % 7) by {
        vstd::arithmetic::div_mod::lemma_add_mod_noop(n, 1, 7);
    }
}

/// Whether `chrono` accepts the calendar date (`NaiveDate::from_ymd_opt`
/// returns `Some`): exactly when the date exists in the proleptic Gregorian
/// calendar and its year lies in `MIN_YEAR..=MAX_YEAR`.
#[verifier::external_body]
fn chrono_accepts_date(year: i32, month: u32, day: u32) -> (accepted: bool)
    ensures
        accepted == is_valid_date(year as int, month as int, day as int),
{
    ds323x::NaiveDate::from_ymd_opt(year, month, day).is_some()
}

/// The weekday that `chrono` gives a valid date (`Datelike::weekday` of
/// `NaiveDate::from_ymd_opt(..)`, as a number from Monday = 0): claimed to be
/// the day of the week of the date in the proleptic Gregorian calendar.
#[verifier::external_body]
fn chrono_weekday(year: i32, month: u32, day: u32) -> (weekday: u8)
    requires
        is_valid_date(year as int, month as int, day as int),
    ensures
        weekday as int == weekday_from_monday(year as int, month as int, day as int),
{
    let date = ds323x::NaiveDate::from_ymd_opt(year, month, day).unwrap();
    ds323x::Datelike::weekday(&date) as u8
}

/// The abstract value of a `DateTime`.
pub struct DateTimeView {
    pub year: int,
    pub month: int,
    pub day: int,
    pub hour: int,
    pub minute: int,
    pub second: int,
}

impl DateTimeView {
    /// An existing date and a time of day with whole seconds.
    pub open spec fn is_valid(self) -> bool {
        &&& is_valid_date(self.year, self.month, self.day)
        &&& 0 <= self.hour < 24
        &&& 0 <= self.minute < 60
        &&& 0 <= self.second < 60
    }

    /// The day of the week, Monday = 0.
    pub open spec fn weekday(self) -> int {
        weekday_from_monday(self.year, self.month, self.day)
    }
}

/// A date and time of day without time zone, as the real-time clock reports it.
#[derive(Clone, Copy, Debug, PartialEq, Eq)]
pub struct DateTime {
    year: i32,
    month: u32,
    day: u32,
    hour: u32,
    minute: u32,
    second: u32,
}

impl DateTime {
    pub closed spec fn view(&self) -> DateTimeView {
        DateTimeView {
            year: self.year as int,
            month: self.month as int,
            day: self.day as int,
            hour: self.hour as int,
            minute: self.minute as int,
            second: self.second as int,
        }
    }

    #[verifier::type_invariant]
    spec fn inv(&self) -> bool {
        self.view().is_valid()
    }

    /// The date and time with the given fields; `None` when the date does not
    /// exist (or lies outside `MIN_YEAR..=MAX_YEAR`) or the time of day is
    /// out of range.
    pub fn new(year: i32, month: u32, day: u32, hour: u32, minute: u32, second: u32) -> (dt:
        Option<Self>)
        ensures
            dt is Some <==> (DateTimeView {
                year: year as int,
                month: month as int,
                day: day as int,
                hour: hour as int,
                minute: minute as int,
                second: second as int,
            }).is_valid(),
            dt is Some <==> (is_valid_date(year as int, month as int, day as int) && hour < 24
                && minute < 60 && second < 60),
            dt is Some ==> dt->0.view() == (DateTimeView {
                year: year as int,
                month: month as int,
                day: day as int,
                hour: hour as int,
                minute: minute as int,
                second: second as int,
            }),
    {
        if hour < 24 && minute < 60 && second < 60 && chrono_accepts_date(year, month, day) {
            Some(DateTime { year, month, day, hour, minute, second })
        } else {
            None
        }
    }

    pub fn year(&self) -> (year: i32)
        ensures
            year as int == self.view().year,
            self.view().is_valid(),
    {
        proof {
            use_type_invariant(self);
        }
        self.year
    }

    pub fn month(&self) -> (month: u32)
        ensures
            month as int == self.view().month,
            self.view().is_valid(),
    {
        proof {
            use_type_invariant(self);
        }
        self.month
    }

    pub fn day(&self) -> (day: u32)
        ensures
            day as int == self.view().day,
            self.view().is_valid(),
    {
        proof {
            use_type_invariant(self);
        }
        self.day
    }

    pub fn hour(&self) -> (hour: u32)
        ensures
            hour as int == self.view().hour,
            self.view().is_valid(),
            hour < 24,
    {
        proof {
            use_type_invariant(self);
        }
        self.hour
    }

    pub fn minute(&self) -> (minute: u32)
        ensures
            minute as int == self.view().minute,
            self.view().is_valid(),
            minute < 60,
    {
        proof {
            use_type_invariant(self);
        }
        self.minute
    }

    pub fn second(&self) -> (second: u32)
        ensures
            second as int == self.view().second,
            self.view().is_valid(),
            second < 60,
    {
        proof {
            use_type_invariant(self);
        }
        self.second
    }

    /// The day of the week, from Monday = 0 to Sunday = 6.
    pub fn weekday(&self) -> (weekday: u8)
        ensures
            weekday as int == self.view().weekday(),
            weekday < 7,
            self.view().is_valid(),
    {
        proof {
            use_type_invariant(self);
        }
        chrono_weekday(self.year, self.month, self.day)
    }
}

} // verus!

//! Calendar dates as day numbers.
//!
//! A [`Date`] is the number of a day in the proleptic Gregorian calendar,
//! counted as `chrono` counts it: 1 January of year 1 is day 1. Order, the day
//! before and after, and distances are plain integer arithmetic; only the
//! calendar month of a day is asked of `chrono`.

use vstd::prelude::*;

verus! {

/// The day number of the first date `chrono` can represent.
pub const MIN_DAY: i32 = -95_746_129;

/// The day number of the last date `chrono` can represent.
pub const MAX_DAY: i32 = 95_745_399;

/// Seconds in a day.
pub const SECONDS_PER_DAY: u32 = 86_400;

/// The pattern that gives a date's calendar month, as in `2024-03`.
pub const MONTH_PATTERN: &'static str = "%Y-%m";

/// The pattern that gives a date as year, month and day, as in `2024-03-31`.
pub const DAY_PATTERN: &'static str = "%Y-%m-%d";

/// A calendar date.
#[derive(Clone, Copy, Debug)]
pub struct Date {
    day: i32,
}

/// A date with a time of day, to the second.
#[derive(Clone, Copy, Debug)]
pub struct DateTime {
    date: Date,
    second: u32,
}

/// What a [`DateTime`] holds, as mathematical integers.
pub struct DateTimeValue {
    pub day: int,
    pub second: int,
}

/// Whether a day number is that of a representable date.
pub open spec fn valid_day(day: int) -> bool {
    MIN_DAY as int <= day <= MAX_DAY as int
}

/// What `chrono` writes for the date with the given day number under the
/// given format pattern.
pub uninterp spec fn formatted_date(day: int, pattern: Seq<char>) -> Seq<char>;

/// The calendar month of a day, as text.
pub open spec fn month_of(day: int) -> Seq<char> {
    formatted_date(day, MONTH_PATTERN@)
}

/// A day as year, month and day, as text.
pub open spec fn day_text(day: int) -> Seq<char> {
    formatted_date(day, DAY_PATTERN@)
}

/// Seconds from the start of day 0 to a point in time.
pub open spec fn seconds_of(t: DateTimeValue) -> int {
    t.day * (SECONDS_PER_DAY as int) + t.second
}

impl View for Date {
    type V = int;

    closed spec fn view(&self) -> int {
        self.day as int
    }
}

impl View for DateTime {
    type V = DateTimeValue;

    closed spec fn view(&self) -> DateTimeValue {
        DateTimeValue { day: self.date.day as int, second: self.second as int }
    }
}

/// Calls `NaiveDate::from_num_days_from_ce_opt` and `NaiveDate::format` of
/// `chrono` and collects what the formatter writes. The result is the named
/// text; the pattern is held to the two patterns the library uses, which
/// `chrono` accepts for dates.
#[verifier::external_body]
fn format_day(day: i32, pattern: &str) -> (r: String)
    requires
        valid_day(day as int),
        pattern@ == MONTH_PATTERN@ || pattern@ == DAY_PATTERN@,
    ensures
        r@ == formatted_date(day as int, pattern@),
{
    match chrono::NaiveDate::from_num_days_from_ce_opt(day) {
        Some(d) => d.format(pattern).to_string(),
        None => String::new(),
    }
}

/// What `chrono` reads a text as under a pattern for a date with a time:
/// the day number and the second of the day, or `None` where the text does
/// not follow the pattern.
pub uninterp spec fn datetime_parsed(text: Seq<char>, pattern: Seq<char>) -> Option<(int, int)>;

/// What `chrono` reads a text as under a pattern for a date: the day
/// number, or `None` where the text does not follow the pattern.
pub uninterp spec fn date_parsed(text: Seq<char>, pattern: Seq<char>) -> Option<int>;

/// A named reading as the value of a date with a time.
pub open spec fn as_datetime(r: Option<(int, int)>) -> Option<DateTimeValue> {
    match r {
        Some(p) => Some(DateTimeValue { day: p.0, second: p.1 }),
        None => None,
    }
}

/// The value of an optional date with a time.
pub open spec fn datetime_of(r: Option<DateTime>) -> Option<DateTimeValue> {
    match r {
        Some(t) => Some(t@),
        None => None,
    }
}

/// The day number of an optional date.
pub open spec fn day_of(r: Option<Date>) -> Option<int> {
    match r {
        Some(d) => Some(d@),
        None => None,
    }
}

/// Calls `NaiveDateTime::parse_from_str` of `chrono` and takes the day
/// number and the second of the day of what it read. The result is the
/// named reading.
#[verifier::external_body]
fn chrono_parse_datetime(text: &str, pattern: &str) -> (r: Option<DateTime>)
    ensures
        datetime_of(r) == as_datetime(datetime_parsed(text@, pattern@)),
{
    match chrono::NaiveDateTime::parse_from_str(text, pattern) {
        Ok(t) => Some(
            DateTime {
                date: Date { day: chrono::Datelike::num_days_from_ce(&t.date()) },
                second: chrono::Timelike::num_seconds_from_midnight(&t.time()),
            },
        ),
        Err(_) => None,
    }
}

/// Calls `NaiveDate::parse_from_str` of `chrono` and takes the day number
/// of what it read. The result is the named reading.
#[verifier::external_body]
fn chrono_parse_date(text: &str, pattern: &str) -> (r: Option<Date>)
    ensures
        day_of(r) == date_parsed(text@, pattern@),
{
    match chrono::NaiveDate::parse_from_str(text, pattern) {
        Ok(d) => Some(Date { day: chrono::Datelike::num_days_from_ce(&d) }),
        Err(_) => None,
    }
}

impl Date {
    #[verifier::type_invariant]
    spec fn well_formed(self) -> bool {
        valid_day(self.day as int)
    }

    /// The date with the given day number, if there is one.
    pub fn from_day_number(day: i32) -> (r: Option<Date>)
        ensures
            r is Some == valid_day(day as int),
            r is Some ==> r->0@ == day,
    {
        if MIN_DAY <= day && day <= MAX_DAY {
            Some(Date { day })
        } else {
            None
        }
    }

    /// 1 January 1970.
    pub fn unix_epoch() -> (r: Date)
        ensures
            r@ == 719_163,
    {
        Date { day: 719_163 }
    }

    /// The day number.
    pub fn day_number(&self) -> (d: i32)
        ensures
            d == self@,
            valid_day(self@),
    {
        proof {
            use_type_invariant(self);
        }
        self.day
    }

    /// The day before, or `None` for the first representable date.
    pub fn pred_opt(&self) -> (r: Option<Date>)
        ensures
            r is Some == (self@ > MIN_DAY),
            r is Some ==> r->0@ == self@ - 1,
    {
        proof {
            use_type_invariant(self);
        }
        if self.day > MIN_DAY {
            Some(Date { day: self.day - 1 })
        } else {
            None
        }
    }

    /// The day after, or `None` for the last representable date.
    pub fn succ_opt(&self) -> (r: Option<Date>)
        ensures
            r is Some == (self@ < MAX_DAY),
            r is Some ==> r->0@ == self@ + 1,
    {
        proof {
            use_type_invariant(self);
        }
        if self.day < MAX_DAY {
            Some(Date { day: self.day + 1 })
        } else {
            None
        }
    }

    /// The number of days from `earlier` to `self`, negative when `self` comes first.
    pub fn days_since(&self, earlier: Date) -> (n: i64)
        ensures
            n == self@ - earlier@,
    {
        proof {
            use_type_invariant(self);
            use_type_invariant(earlier);
        }
        self.day as i64 - earlier.day as i64
    }

    /// Whether `self` is `other` or comes before it.
    pub fn le(&self, other: Date) -> (b: bool)
        ensures
            b == (self@ <= other@),
    {
        self.day <= other.day
    }

    /// Whether `self` comes before `other`.
    pub fn lt(&self, other: Date) -> (b: bool)
        ensures
            b == (self@ < other@),
    {
        self.day < other.day
    }

    /// Whether the two dates are the same day.
    pub fn same_day(&self, other: Date) -> (b: bool)
        ensures
            b == (self@ == other@),
    {
        self.day == other.day
    }

    /// The date as year, month and day, as `chrono` writes it under `%Y-%m-%d`.
    pub fn iso_text(&self) -> (r: String)
        ensures
            r@ == day_text(self@),
    {
        proof {
            use_type_invariant(self);
        }
        format_day(self.day, DAY_PATTERN)
    }

    /// The date that a text stands for under a pattern, as `chrono` reads it.
    pub fn parse(text: &str, pattern: &str) -> (r: Option<Date>)
        ensures
            day_of(r) == date_parsed(text@, pattern@),
    {
        chrono_parse_date(text, pattern)
    }

    /// The calendar month of the date, as `chrono` writes it under `%Y-%m`.
    pub fn month_label(&self) -> (r: String)
        ensures
            r@ == month_of(self@),
    {
        proof {
            use_type_invariant(self);
        }
        format_day(self.day, MONTH_PATTERN)
    }
}

impl DateTime {
    #[verifier::type_invariant]
    spec fn well_formed(self) -> bool {
        valid_day(self.date.day as int) && self.second < SECONDS_PER_DAY
    }

    /// The given second of the given date, if the day has that second.
    pub fn new(date: Date, second: u32) -> (r: Option<DateTime>)
        ensures
            r is Some == (second < SECONDS_PER_DAY),
            r is Some ==> r->0@ == (DateTimeValue { day: date@, second: second as int }),
    {
        proof {
            use_type_invariant(date);
        }
        if second < SECONDS_PER_DAY {
            Some(DateTime { date, second })
        } else {
            None
        }
    }

    /// The date and time that a text stands for under a pattern, as
    /// `chrono` reads it.
    pub fn parse(text: &str, pattern: &str) -> (r: Option<DateTime>)
        ensures
            datetime_of(r) == as_datetime(datetime_parsed(text@, pattern@)),
    {
        chrono_parse_datetime(text, pattern)
    }

    /// Midnight at the start of the given date.
    pub fn at_midnight(date: Date) -> (r: DateTime)
        ensures
            r@ == (DateTimeValue { day: date@, second: 0 }),
    {
        proof {
            use_type_invariant(date);
        }
        DateTime { date, second: 0 }
    }

    /// The date.
    pub fn date(&self) -> (d: Date)
        ensures
            d@ == self@.day,
    {
        self.date
    }

    /// The second of the day.
    pub fn second(&self) -> (s: u32)
        ensures
            s == self@.second,
            s < SECONDS_PER_DAY,
    {
        proof {
            use_type_invariant(self);
        }
        self.second
    }

    /// Seconds from the start of day 0, by which points in time are ordered.
    pub fn seconds(&self) -> (k: i64)
        ensures
            k == seconds_of(self@),
            valid_day(self@.day),
            0 <= self@.second < SECONDS_PER_DAY,
    {
        proof {
            use_type_invariant(self);
        }
        self.date.day as i64 * 86_400i64 + self.second as i64
    }
}

} // verus!

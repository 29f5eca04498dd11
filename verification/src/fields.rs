//! The fields of statements and of stored records, as texts.
//!
//! Statements write amounts with thousands separators and a pound sign and
//! dates as day, month and two-digit year; stored records write dates as
//! year, month and day. A field that cannot be read is `None`, except in
//! stored records, where it falls back to a default.

use vstd::prelude::*;
use crate::date::{
    as_datetime, date_parsed, datetime_of, datetime_parsed, day_of, Date, DateTime, DateTimeValue,
};
use crate::decimal::{as_value, decimal_parsed, value_of, zero_value, Amount, DecimalValue};
use crate::text::{contains, contains_text, replace, replaced, trim, trimmed};

verus! {

/// Day, month and year of a statement, with the time of day.
pub const STATEMENT_TIME: &'static str = "%d/%m/%y %H:%M:%S";

/// Day, month and year of a statement.
pub const STATEMENT_DAY: &'static str = "%d/%m/%y";

/// Year, month and day of a stored record, with the time of day.
pub const STORED_TIME: &'static str = "%Y-%m-%d %H:%M:%S";

/// Year, month and day of a stored record.
pub const STORED_DAY: &'static str = "%Y-%m-%d";

/// The day number of 1 January 1970, the date that stands for a stored date
/// that cannot be read.
pub const DEFAULT_DAY: i32 = 719_163;

/// A text without thousands separators.
pub open spec fn without_separators(text: Seq<char>) -> Seq<char> {
    replaced(text, ","@, ""@)
}

/// A text without pound signs and thousands separators, trimmed.
pub open spec fn bare_amount(text: Seq<char>) -> Seq<char> {
    trimmed(replaced(replaced(text, "\u{a3}"@, ""@), ","@, ""@))
}

/// The amount of a plain field: the text, thousands separators left out,
/// read as a decimal.
pub open spec fn decimal_field_value(text: Seq<char>) -> Option<DecimalValue> {
    as_value(decimal_parsed(without_separators(text)))
}

/// The amount of a money field: zero for a field that is empty but for
/// pound signs, separators and white space.
pub open spec fn currency_field_value(text: Seq<char>) -> Option<DecimalValue> {
    if bare_amount(text).len() == 0 {
        Some(zero_value())
    } else {
        as_value(decimal_parsed(bare_amount(text)))
    }
}

/// The amount of a money field that may be left out: `Ok(None)` for a field
/// that is missing or empty, `Err` for one that is no number.
pub open spec fn optional_currency_value(text: Option<Seq<char>>) -> Result<Option<DecimalValue>, ()> {
    match text {
        None => Ok(None),
        Some(t) => if bare_amount(t).len() == 0 {
            Ok(None)
        } else {
            match as_value(decimal_parsed(bare_amount(t))) {
                Some(v) => Ok(Some(v)),
                None => Err(()),
            }
        },
    }
}

/// Midnight of a day.
pub open spec fn midnight(day: Option<int>) -> Option<DateTimeValue> {
    match day {
        Some(d) => Some(DateTimeValue { day: d, second: 0 }),
        None => None,
    }
}

/// The time of a trade: a date with a time, else a date alone, at midnight.
pub open spec fn datetime_field_value(text: Seq<char>) -> Option<DateTimeValue> {
    match as_datetime(datetime_parsed(text, STATEMENT_TIME@)) {
        Some(t) => Some(t),
        None => midnight(date_parsed(text, STATEMENT_DAY@)),
    }
}

/// The settlement of a trade: a date alone, at midnight, else a date with a time.
pub open spec fn settlement_field_value(text: Seq<char>) -> Option<DateTimeValue> {
    match midnight(date_parsed(text, STATEMENT_DAY@)) {
        Some(t) => Some(t),
        None => as_datetime(datetime_parsed(text, STATEMENT_TIME@)),
    }
}

/// A stored time: a date with a time; else, for a text without a colon,
/// the text with midnight added; else midnight of the default day.
pub open spec fn stored_datetime_value(text: Seq<char>) -> DateTimeValue {
    match as_datetime(datetime_parsed(text, STORED_TIME@)) {
        Some(t) => t,
        None => {
            let again = if contains_text(text, ":"@) {
                text
            } else {
                text + " 00:00:00"@
            };
            match as_datetime(datetime_parsed(again, STORED_TIME@)) {
                Some(t) => t,
                None => DateTimeValue { day: DEFAULT_DAY as int, second: 0 },
            }
        },
    }
}

/// The value of an optional optional amount.
pub open spec fn optional_value(r: Result<Option<Amount>, ()>) -> Result<Option<DecimalValue>, ()> {
    match r {
        Ok(a) => Ok(value_of(a)),
        Err(e) => Err(e),
    }
}

/// The characters of an optional text slice.
pub open spec fn slice_text(text: Option<&str>) -> Option<Seq<char>> {
    match text {
        Some(t) => Some(t@),
        None => None,
    }
}

/// A money field without pound signs and separators, trimmed.
fn bare(text: &str) -> (r: String)
    ensures
        r@ == bare_amount(text@),
{
    let without_sign = replace(text, "\u{a3}", "");
    let without_commas = replace(without_sign.as_str(), ",", "");
    trim(without_commas.as_str()).to_owned()
}

/// Reads a quantity.
pub fn decimal_field(text: &str) -> (r: Option<Amount>)
    ensures
        value_of(r) == decimal_field_value(text@),
{
    let cleaned = replace(text, ",", "");
    Amount::parse(cleaned.as_str())
}

/// Reads a money amount; an empty field is zero.
pub fn currency_field(text: &str) -> (r: Option<Amount>)
    ensures
        value_of(r) == currency_field_value(text@),
{
    let cleaned = bare(text);
    if cleaned.as_str().is_empty() {
        Some(Amount::zero())
    } else {
        Amount::parse(cleaned.as_str())
    }
}

/// Reads a money amount that may be left out.
pub fn optional_currency_field(text: Option<&str>) -> (r: Result<Option<Amount>, ()>)
    ensures
        optional_value(r) == optional_currency_value(slice_text(text)),
{
    match text {
        None => Ok(None),
        Some(t) => {
            let cleaned = bare(t);
            if cleaned.as_str().is_empty() {
                Ok(None)
            } else {
                match Amount::parse(cleaned.as_str()) {
                    Some(a) => Ok(Some(a)),
                    None => Err(()),
                }
            }
        },
    }
}

/// Reads the time of a trade.
pub fn datetime_field(text: &str) -> (r: Option<DateTime>)
    ensures
        datetime_of(r) == datetime_field_value(text@),
{
    match DateTime::parse(text, STATEMENT_TIME) {
        Some(t) => Some(t),
        None => match Date::parse(text, STATEMENT_DAY) {
            Some(d) => Some(DateTime::at_midnight(d)),
            None => None,
        },
    }
}

/// Reads the settlement date of a trade.
pub fn settlement_field(text: &str) -> (r: Option<DateTime>)
    ensures
        datetime_of(r) == settlement_field_value(text@),
{
    match Date::parse(text, STATEMENT_DAY) {
        Some(d) => Some(DateTime::at_midnight(d)),
        None => DateTime::parse(text, STATEMENT_TIME),
    }
}

/// Reads the date of a cash movement.
pub fn date_field(text: &str) -> (r: Option<Date>)
    ensures
        day_of(r) == date_parsed(text@, STATEMENT_DAY@),
{
    Date::parse(text, STATEMENT_DAY)
}

/// Reads a stored time; what cannot be read is midnight of the default day.
pub fn stored_datetime(text: &str) -> (r: DateTime)
    ensures
        r@ == stored_datetime_value(text@),
{
    match DateTime::parse(text, STORED_TIME) {
        Some(t) => t,
        None => {
            let again = if contains(text, ":") {
                text.to_owned()
            } else {
                text.to_owned().concat(" 00:00:00")
            };
            match DateTime::parse(again.as_str(), STORED_TIME) {
                Some(t) => t,
                None => DateTime::at_midnight(Date::unix_epoch()),
            }
        },
    }
}

/// Reads a stored date; what cannot be read is the default day.
pub fn stored_date(text: &str) -> (r: Date)
    ensures
        r@ == match date_parsed(text@, STORED_DAY@) {
            Some(d) => d,
            None => DEFAULT_DAY as int,
        },
{
    match Date::parse(text, STORED_DAY) {
        Some(d) => d,
        None => Date::unix_epoch(),
    }
}

/// Reads a stored amount; what cannot be read is zero.
pub fn stored_amount(text: &str) -> (r: Amount)
    ensures
        r@ == match as_value(decimal_parsed(text@)) {
            Some(v) => v,
            None => zero_value(),
        },
{
    match Amount::parse(text) {
        Some(a) => a,
        None => Amount::zero(),
    }
}

} // verus!

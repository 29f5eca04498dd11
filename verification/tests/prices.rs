use chrono::{Datelike, NaiveDate};
use investengine_csv_server_rs::date::{Date, MAX_DAY, MIN_DAY};
use investengine_csv_server_rs::decimal::Amount;
use investengine_csv_server_rs::prices::{
    build_price_map, converted_prices, detect_currency, fallback_in, ConversionError,
    CurrencyConverter, PriceBook, PriceObservation,
};
use rust_decimal::Decimal;
use std::str::FromStr;

fn amt(text: &str) -> Amount {
    let d = Decimal::from_str(text).unwrap();
    Amount::new(d.mantissa(), d.scale()).unwrap()
}

fn dec(a: Amount) -> Decimal {
    Decimal::from_i128_with_scale(a.mantissa(), a.scale())
}

fn number(text: &str) -> Decimal {
    Decimal::from_str(text).unwrap()
}

fn day(y: i32, m: u32, d: u32) -> Date {
    Date::from_day_number(NaiveDate::from_ymd_opt(y, m, d).unwrap().num_days_from_ce()).unwrap()
}

fn shifted(date: Date, days: i32) -> Date {
    Date::from_day_number(date.day_number() + days).unwrap()
}

fn seen(date: Date, price: &str, currency: &str) -> PriceObservation {
    PriceObservation { date, price: amt(price), currency: currency.to_string() }
}

#[test]
fn price_of_the_day_is_taken_first() {
    let d = day(2024, 5, 10);
    let mut book = PriceBook::new();
    book.record("VWRP.L", &vec![seen(shifted(d, -1), "99", "GBP"), seen(d, "100.5", "GBP")]);
    assert_eq!(dec(book.get_price_with_fallback("VWRP.L", d)), number("100.5"));
}

#[test]
fn unknown_ticker_has_no_price() {
    let book = PriceBook::new();
    assert!(book.get_price_with_fallback("NONE", day(2024, 5, 10)).is_zero());
    assert!(!book.contains("NONE"));
    assert_eq!(book.currency_of("NONE"), "GBP");
}

#[test]
fn fallback_looks_back_ninety_days() {
    let d = day(2024, 5, 10);
    let map = build_price_map(&vec![seen(shifted(d, -89), "7", "GBP")]);
    assert_eq!(dec(fallback_in(&map, d)), number("7"));
    let map = build_price_map(&vec![seen(shifted(d, -90), "7", "GBP")]);
    assert_eq!(dec(fallback_in(&map, d)), number("7"));
    let map = build_price_map(&vec![seen(shifted(d, -91), "7", "GBP")]);
    assert!(fallback_in(&map, d).is_zero());
}

#[test]
fn a_price_exactly_ninety_days_back_is_found() {
    let mut book = PriceBook::new();
    book.record("T", &vec![seen(day(2024, 1, 1), "5", "GBP")]);
    assert_eq!(dec(book.get_price_with_fallback("T", day(2024, 3, 31))), number("5"));
    assert!(book.get_price_with_fallback("T", day(2024, 4, 1)).is_zero());
}

#[test]
fn fallback_looks_forward_thirty_days() {
    let d = day(2024, 5, 10);
    let map = build_price_map(&vec![seen(shifted(d, 29), "8", "GBP")]);
    assert_eq!(dec(fallback_in(&map, d)), number("8"));
    let map = build_price_map(&vec![seen(shifted(d, 30), "8", "GBP")]);
    assert_eq!(dec(fallback_in(&map, d)), number("8"));
    let map = build_price_map(&vec![seen(shifted(d, 31), "8", "GBP")]);
    assert!(fallback_in(&map, d).is_zero());
}

#[test]
fn fallback_prefers_the_past_and_the_nearest() {
    let d = day(2024, 5, 10);
    let map = build_price_map(
        &vec![
            seen(shifted(d, -80), "1", "GBP"),
            seen(shifted(d, -3), "2", "GBP"),
            seen(shifted(d, 1), "3", "GBP"),
        ],
    );
    assert_eq!(dec(fallback_in(&map, d)), number("2"));
    let map = build_price_map(&vec![seen(shifted(d, 5), "4", "GBP"), seen(shifted(d, 2), "5", "GBP")]);
    assert_eq!(dec(fallback_in(&map, d)), number("5"));
}

#[test]
fn fallback_skips_zero_prices() {
    let d = day(2024, 5, 10);
    let map = build_price_map(
        &vec![seen(d, "0.00", "GBP"), seen(shifted(d, -1), "0", "GBP"), seen(shifted(d, -2), "6", "GBP")],
    );
    assert_eq!(dec(fallback_in(&map, d)), number("6"));
    let map = build_price_map(&vec![seen(d, "0", "GBP")]);
    assert!(fallback_in(&map, d).is_zero());
}

#[test]
fn fallback_is_repeatable_and_holds_at_the_found_date() {
    let d = day(2024, 5, 10);
    let found = shifted(d, -12);
    let mut book = PriceBook::new();
    book.record("T", &vec![seen(found, "42.42", "GBP"), seen(shifted(d, 3), "50", "GBP")]);
    let first = book.get_price_with_fallback("T", d);
    let second = book.get_price_with_fallback("T", d);
    assert_eq!((first.mantissa(), first.scale()), (second.mantissa(), second.scale()));
    assert_eq!(dec(first), number("42.42"));
    assert_eq!(dec(book.get_price_with_fallback("T", found)), number("42.42"));
}

#[test]
fn fallback_stops_at_the_ends_of_the_calendar() {
    let first = Date::from_day_number(MIN_DAY).unwrap();
    let last = Date::from_day_number(MAX_DAY).unwrap();
    let map = build_price_map(&vec![seen(shifted(first, 2), "9", "GBP")]);
    assert_eq!(dec(fallback_in(&map, first)), number("9"));
    let map = build_price_map(&vec![seen(shifted(last, -2), "9", "GBP")]);
    assert_eq!(dec(fallback_in(&map, last)), number("9"));
    let map = build_price_map(&vec![]);
    assert!(fallback_in(&map, first).is_zero());
    assert!(fallback_in(&map, last).is_zero());
}

#[test]
fn later_observation_replaces_earlier_one() {
    let d = day(2024, 5, 10);
    let map = build_price_map(&vec![seen(d, "1", "GBP"), seen(d, "2", "GBP")]);
    assert_eq!(map.len(), 1);
    assert_eq!(dec(fallback_in(&map, d)), number("2"));
}

#[test]
fn last_currency_that_is_not_empty_wins() {
    let d = day(2024, 5, 10);
    assert_eq!(detect_currency(&vec![]), "GBP");
    assert_eq!(detect_currency(&vec![seen(d, "1", "USD"), seen(d, "1", "EUR")]), "EUR");
    assert_eq!(detect_currency(&vec![seen(d, "1", "USD"), seen(d, "1", "")]), "USD");
    assert_eq!(detect_currency(&vec![seen(d, "1", "")]), "GBP");
}

#[test]
fn recording_replaces_a_series_and_leaves_the_others() {
    let d = day(2024, 5, 10);
    let mut book = PriceBook::new();
    book.record("A", &vec![seen(d, "1", "USD")]);
    book.record("B", &vec![seen(d, "2", "EUR")]);
    book.record("A", &vec![seen(d, "3", "GBp")]);
    assert!(book.contains("A"));
    assert!(book.contains("B"));
    assert!(!book.contains("a"));
    assert_eq!(dec(book.get_price_with_fallback("A", d)), number("3"));
    assert_eq!(dec(book.get_price_with_fallback("B", d)), number("2"));
    assert_eq!(book.currency_of("A"), "GBp");
    assert_eq!(book.currency_of("B"), "EUR");
}

#[test]
fn converter_knows_dollars_and_euros() {
    let c = CurrencyConverter::new();
    assert_eq!(c.get_fx_ticker("USD"), Some("GBPUSD=X".to_string()));
    assert_eq!(c.get_fx_ticker("EUR"), Some("EURGBP=X".to_string()));
    assert_eq!(c.get_fx_ticker("GBP"), None);
    assert_eq!(c.get_fx_ticker("usd"), None);
    assert_eq!(c.get_fx_ticker(""), None);
}

#[test]
fn pounds_pass_and_pence_are_divided() {
    let c = CurrencyConverter::new();
    let d = day(2024, 5, 10);
    let pounds = c.convert_to_gbp(amt("12.34"), "GBP", d, None).unwrap();
    assert_eq!((pounds.mantissa(), pounds.scale()), (1234, 2));
    let pence = c.convert_to_gbp(amt("100"), "GBp", d, None).unwrap();
    assert_eq!(dec(pence), number("1.00"));
    let pence = c.convert_to_gbp(amt("100"), "GBp", day(1999, 1, 1), Some(amt("5"))).unwrap();
    assert_eq!(dec(pence), number("1"));
}

#[test]
fn dollars_are_divided_and_euros_multiplied() {
    let c = CurrencyConverter::new();
    let d = day(2024, 5, 10);
    let dollars = c.convert_to_gbp(amt("100"), "USD", d, Some(amt("1.25"))).unwrap();
    assert_eq!(dec(dollars), number("80.00"));
    let euros = c.convert_to_gbp(amt("100"), "EUR", d, Some(amt("0.85"))).unwrap();
    assert_eq!(dec(euros), number("85.00"));
}

#[test]
fn conversion_errors() {
    let c = CurrencyConverter::new();
    let d = day(2024, 5, 10);
    assert_eq!(c.convert_to_gbp(amt("1"), "USD", d, None).err(), Some(ConversionError::MissingRate));
    assert_eq!(
        c.convert_to_gbp(amt("1"), "USD", d, Some(amt("0.000"))).err(),
        Some(ConversionError::ZeroRate)
    );
    assert_eq!(
        c.convert_to_gbp(amt("1"), "JPY", d, Some(amt("150"))).err(),
        Some(ConversionError::UnknownCurrency)
    );
    assert_eq!(c.convert_to_gbp(amt("1"), "JPY", d, None).err(), Some(ConversionError::UnknownCurrency));
    let max = Amount::new(investengine_csv_server_rs::decimal::MAX_MANTISSA, 0).unwrap();
    assert_eq!(c.convert_to_gbp(max, "EUR", d, Some(amt("2"))).err(), Some(ConversionError::Overflow));
    assert_eq!(c.convert_to_gbp(max, "USD", d, Some(amt("0.5"))).err(), Some(ConversionError::Overflow));
}

#[test]
fn converted_series_follows_currency_and_rate() {
    let d = day(2024, 5, 10);
    let dates = vec![shifted(d, -1), d, shifted(d, 200)];
    let mut book = PriceBook::new();
    book.record("US", &vec![seen(d, "100", "USD")]);
    book.record("UK", &vec![seen(d, "250", "GBp")]);
    book.record("JP", &vec![seen(d, "1000", "JPY")]);
    book.record("GBPUSD=X", &vec![seen(shifted(d, -1), "1.25", "USD")]);
    let c = CurrencyConverter::new();
    let us = converted_prices(&book, &c, "US", &dates);
    assert_eq!(us.len(), 3);
    assert_eq!(dec(us[0].original), number("100"));
    assert_eq!(dec(us[0].converted), number("80"));
    assert_eq!(dec(us[1].converted), number("80"));
    assert!(us[2].original.is_zero());
    assert!(us[2].converted.is_zero());
    let uk = converted_prices(&book, &c, "UK", &dates);
    assert_eq!(dec(uk[1].original), number("250"));
    assert_eq!(dec(uk[1].converted), number("2.5"));
    let jp = converted_prices(&book, &c, "JP", &dates);
    assert_eq!(dec(jp[1].converted), number("1000"));
    let none = converted_prices(&book, &c, "NONE", &dates);
    assert!(none[1].original.is_zero() && none[1].converted.is_zero());
}

#[test]
fn missing_rate_leaves_the_price_unconverted() {
    let d = day(2024, 5, 10);
    let mut book = PriceBook::new();
    book.record("US", &vec![seen(d, "100", "USD")]);
    let c = CurrencyConverter::new();
    let us = converted_prices(&book, &c, "US", &vec![d]);
    assert_eq!(dec(us[0].converted), number("100"));
    book.record("GBPUSD=X", &vec![seen(d, "0", "USD")]);
    let us = converted_prices(&book, &c, "US", &vec![d]);
    assert_eq!(dec(us[0].converted), number("100"));
}

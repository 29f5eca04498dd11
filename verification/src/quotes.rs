//! Closing quotes as the market-data provider words them.
//!
//! A quote is a text such as `15.53 USD`: the digits and points are the
//! price, the last word is the currency. Prices of London tickers that are
//! labelled as pounds but exceed 250 are taken to be pence.

use vstd::prelude::*;
use crate::date::Date;
use crate::decimal::{as_value, decimal_parsed, exceeds, quotient_of, whole_value, Amount, DecimalValue};
use crate::prices::PriceObservation;
use crate::text::{
    chars_of, ends_with, ends_with_text, same_text, text_from_chars, texts, words, words_of,
};

verus! {

/// The price above which a London quote in pounds is taken to be in pence.
pub const PENCE_THRESHOLD: i32 = 250;

/// A closing quote of one day, as the provider words it.
#[derive(Clone, Debug)]
pub struct Quote {
    pub date: Date,
    pub close: String,
}

/// What an observation says, as plain values.
pub struct ObservationValue {
    pub day: int,
    pub price: DecimalValue,
    pub currency: Seq<char>,
}

/// Whether a character belongs to a price: a digit or a point.
pub open spec fn is_price_char(c: char) -> bool {
    c == '0' || c == '1' || c == '2' || c == '3' || c == '4' || c == '5' || c == '6' || c == '7'
        || c == '8' || c == '9' || c == '.'
}

/// The digits and points of a text, in their order.
pub open spec fn price_chars(text: Seq<char>) -> Seq<char>
    decreases text.len(),
{
    if text.len() == 0 {
        Seq::empty()
    } else if is_price_char(text.last()) {
        price_chars(text.drop_last()).push(text.last())
    } else {
        price_chars(text.drop_last())
    }
}

/// The currency of a quote: its last word, pounds where it has no word.
pub open spec fn quoted_currency(text: Seq<char>) -> Seq<char> {
    if words_of(text).len() == 0 {
        "GBP"@
    } else {
        words_of(text).last()
    }
}

/// The price of a quote of a ticker: the number its digits and points
/// stand for, divided by 100 where a London ticker quoted in pounds exceeds
/// the threshold. `None` where the digits and points are no number.
pub open spec fn quoted_price(ticker: Seq<char>, text: Seq<char>) -> Option<DecimalValue> {
    match as_value(decimal_parsed(price_chars(text))) {
        None => None,
        Some(price) => if ends_with_text(ticker, ".L"@) && quoted_currency(text) == "GBP"@ && exceeds(
            price,
            PENCE_THRESHOLD as int,
        ) {
            quotient_of(price, whole_value(100))
        } else {
            Some(price)
        },
    }
}

/// What a quote gives for a ticker between two dates: nothing for a quote
/// outside the dates or without a price.
pub open spec fn observed(ticker: Seq<char>, quote: Quote, start: int, end: int) -> Option<
    ObservationValue,
> {
    if start <= quote.date@ <= end {
        match quoted_price(ticker, quote.close@) {
            Some(price) => Some(
                ObservationValue { day: quote.date@, price, currency: quoted_currency(quote.close@) },
            ),
            None => None,
        }
    } else {
        None
    }
}

/// What the quotes give for a ticker between two dates, in their order.
pub open spec fn all_observed(ticker: Seq<char>, quotes: Seq<Quote>, start: int, end: int) -> Seq<
    ObservationValue,
>
    decreases quotes.len(),
{
    if quotes.len() == 0 {
        Seq::empty()
    } else {
        let earlier = all_observed(ticker, quotes.drop_last(), start, end);
        match observed(ticker, quotes.last(), start, end) {
            Some(o) => earlier.push(o),
            None => earlier,
        }
    }
}

/// What an observation says.
pub open spec fn observation_value(o: PriceObservation) -> ObservationValue {
    ObservationValue { day: o.date@, price: o.price@, currency: o.currency@ }
}

/// What an optional observation says.
pub open spec fn optional_observation(o: Option<PriceObservation>) -> Option<ObservationValue> {
    match o {
        Some(x) => Some(observation_value(x)),
        None => None,
    }
}

/// Whether a character is a digit or a point.
fn price_char(c: char) -> (r: bool)
    ensures
        r == is_price_char(c),
{
    c == '0' || c == '1' || c == '2' || c == '3' || c == '4' || c == '5' || c == '6' || c == '7'
        || c == '8' || c == '9' || c == '.'
}

/// The digits and points of a text.
pub fn digits_and_points(text: &str) -> (r: String)
    ensures
        r@ == price_chars(text@),
{
    let all = chars_of(text);
    let mut kept: Vec<char> = Vec::new();
    let mut i: usize = 0;
    assert(all@.take(0) =~= Seq::empty());
    while i < all.len()
        invariant
            i <= all.len(),
            kept@ == price_chars(all@.take(i as int)),
        decreases all.len() - i,
    {
        proof {
            assert(all@.take(i + 1).drop_last() == all@.take(i as int));
            assert(all@.take(i + 1).last() == all[i as int]);
        }
        if price_char(all[i]) {
            kept.push(all[i]);
        }
        i += 1;
    }
    proof {
        assert(all@.take(all.len() as int) == all@);
    }
    text_from_chars(&kept)
}

/// The currency that a quote names.
pub fn currency_of_quote(text: &str) -> (r: String)
    ensures
        r@ == quoted_currency(text@),
{
    let all = words(text);
    if all.len() == 0 {
        "GBP".to_owned()
    } else {
        assert(texts(all@).last() == all[all.len() - 1]@);
        all[all.len() - 1].clone()
    }
}

/// The observation that a quote gives for a ticker, if the quote lies
/// between the two dates and holds a price.
pub fn observation_from_quote(ticker_symbol: &str, quote: &Quote, start_date: Date, end_date: Date) -> (r:
    Option<PriceObservation>)
    ensures
        optional_observation(r) == observed(ticker_symbol@, *quote, start_date@, end_date@),
{
    if quote.date.lt(start_date) || end_date.lt(quote.date) {
        return None;
    }
    let currency = currency_of_quote(quote.close.as_str());
    let digits = digits_and_points(quote.close.as_str());
    let parsed = match Amount::parse(digits.as_str()) {
        Some(p) => p,
        None => {
            return None;
        },
    };
    let price = if ends_with(ticker_symbol, ".L") && same_text(currency.as_str(), "GBP")
        && parsed.greater_than(PENCE_THRESHOLD) {
        match parsed.checked_div(Amount::from_int(100)) {
            Some(p) => p,
            None => {
                return None;
            },
        }
    } else {
        parsed
    };
    Some(PriceObservation { date: quote.date, price, currency })
}

/// The observations that the quotes give for a ticker between two dates,
/// in the order of the quotes.
pub fn observations_from_quotes(
    ticker_symbol: &str,
    quotes: &Vec<Quote>,
    start_date: Date,
    end_date: Date,
) -> (r: Vec<PriceObservation>)
    ensures
        r@.map_values(|o: PriceObservation| observation_value(o)) == all_observed(
            ticker_symbol@,
            quotes@,
            start_date@,
            end_date@,
        ),
{
    let mut out: Vec<PriceObservation> = Vec::new();
    let mut i: usize = 0;
    proof {
        assert(quotes@.take(0) =~= Seq::empty());
        assert(out@.map_values(|o: PriceObservation| observation_value(o)) =~= Seq::empty());
    }
    while i < quotes.len()
        invariant
            i <= quotes.len(),
            out@.map_values(|o: PriceObservation| observation_value(o)) == all_observed(
                ticker_symbol@,
                quotes@.take(i as int),
                start_date@,
                end_date@,
            ),
        decreases quotes.len() - i,
    {
        let ghost before = out@;
        proof {
            assert(quotes@.take(i + 1).drop_last() == quotes@.take(i as int));
            assert(quotes@.take(i + 1).last() == quotes[i as int]);
        }
        match observation_from_quote(ticker_symbol, &quotes[i], start_date, end_date) {
            Some(o) => {
                let ghost v = observation_value(o);
                out.push(o);
                proof {
                    assert(out@.map_values(|o: PriceObservation| observation_value(o))
                        =~= before.map_values(|o: PriceObservation| observation_value(o)).push(v));
                }
            },
            None => {},
        }
        i += 1;
    }
    proof {
        assert(quotes@.take(quotes.len() as int) == quotes@);
    }
    out
}

} // verus!

//! Price series with gap filling, and conversion into the base currency.
//!
//! A [`PriceBook`] holds, per ticker, the prices observed on some days and
//! the currency they are quoted in. A day without a usable price takes the
//! nearest earlier price up to [`BACK_WINDOW`] days back, else the nearest
//! later one up to [`FORWARD_WINDOW`] days ahead, else zero. A [`CurrencyConverter`]
//! turns a quoted price into pounds.

use std::collections::HashMap;
use vstd::prelude::*;
use crate::date::{valid_day, Date, MAX_DAY, MIN_DAY};
use crate::decimal::{
    product_of, quotient_of, value_of, whole_value, zero_value, Amount, DecimalValue,
};
use crate::security_parser::text_of;
use crate::text::same_text;

verus! {

broadcast use vstd::std_specs::hash::group_hash_axioms;

/// How many days before the day a price may lie that stands for the day.
pub const BACK_WINDOW: i32 = 90;

/// How many days after the day a price may lie that stands for the day.
pub const FORWARD_WINDOW: i32 = 30;

/// One price as the market-data provider reports it.
#[derive(Clone, Debug)]
pub struct PriceObservation {
    pub date: Date,
    pub price: Amount,
    pub currency: String,
}

/// The prices of one ticker.
#[derive(Clone, Debug)]
pub struct PriceSeries {
    ticker: String,
    currency: String,
    prices: HashMap<i32, Amount>,
}

/// The price series of all tickers that were fetched.
#[derive(Clone, Debug)]
pub struct PriceBook {
    entries: Vec<PriceSeries>,
}

/// What a series holds: the price stored for each day number, and the currency.
pub struct SeriesValue {
    pub prices: Map<i32, Amount>,
    pub currency: Seq<char>,
}

/// Why a price could not be converted.
#[derive(Clone, Copy, Debug, PartialEq, Eq, Structural)]
pub enum ConversionError {
    /// The currency needs an exchange rate and none was given.
    MissingRate,
    /// The exchange rate given is zero.
    ZeroRate,
    /// No rule is known for the currency.
    UnknownCurrency,
    /// The converted amount does not fit a decimal.
    Overflow,
}

/// How one currency is converted: the ticker of its exchange rate, and
/// whether an amount is multiplied by the rate or divided by it.
#[derive(Clone, Debug)]
pub struct FxRule {
    currency: String,
    fx_ticker: String,
    multiply: bool,
}

/// What a rule says, as plain values.
pub struct FxRuleValue {
    pub fx_ticker: Seq<char>,
    pub multiply: bool,
}

/// Converts amounts into pounds by a fixed table of exchange-rate rules.
#[derive(Clone, Debug)]
pub struct CurrencyConverter {
    rules: Vec<FxRule>,
}

/// A price before and after conversion into pounds.
#[derive(Clone, Copy, Debug)]
pub struct ConvertedPrice {
    pub original: Amount,
    pub converted: Amount,
}

/// The price stored for a day, zero when none is stored.
pub open spec fn stored_price(prices: Map<i32, Amount>, day: int) -> DecimalValue {
    if i32::MIN <= day <= i32::MAX && prices.contains_key(day as i32) {
        prices[day as i32]@
    } else {
        zero_value()
    }
}

/// Whether a price other than zero is stored for a day.
pub open spec fn priced(prices: Map<i32, Amount>, day: int) -> bool {
    stored_price(prices, day).mantissa != 0
}

/// Whether no day from `from` to `to` has a usable price.
pub open spec fn none_priced(prices: Map<i32, Amount>, from: int, to: int) -> bool {
    forall|d: int| from <= d <= to ==> !priced(prices, d)
}

/// Whether `found` is the nearest day with a usable price at or before
/// `day`, inside the backward window.
pub open spec fn nearest_back(prices: Map<i32, Amount>, day: int, found: int) -> bool {
    &&& day - BACK_WINDOW <= found <= day
    &&& MIN_DAY <= found
    &&& priced(prices, found)
    &&& none_priced(prices, found + 1, day)
}

/// Whether `found` is the nearest day with a usable price at or after `day`,
/// inside the forward window.
pub open spec fn nearest_forward(prices: Map<i32, Amount>, day: int, found: int) -> bool {
    &&& day <= found <= day + FORWARD_WINDOW
    &&& found <= MAX_DAY
    &&& priced(prices, found)
    &&& none_priced(prices, day, found - 1)
}

/// The price that stands for a day: the nearest usable price looking back,
/// else the nearest looking forward, else zero.
pub open spec fn fallback_price(prices: Map<i32, Amount>, day: int) -> DecimalValue {
    if exists|d: int| nearest_back(prices, day, d) {
        stored_price(prices, choose|d: int| nearest_back(prices, day, d))
    } else if exists|d: int| nearest_forward(prices, day, d) {
        stored_price(prices, choose|d: int| nearest_forward(prices, day, d))
    } else {
        zero_value()
    }
}

/// The map from day number to price that a list of observations builds: a
/// later observation of a day replaces an earlier one.
pub open spec fn price_map(observations: Seq<PriceObservation>) -> Map<i32, Amount>
    decreases observations.len(),
{
    if observations.len() == 0 {
        Map::empty()
    } else {
        price_map(observations.drop_last()).insert(
            observations.last().date@ as i32,
            observations.last().price,
        )
    }
}

/// The currency that a list of observations reports: the last one that is
/// not empty, pounds when there is none.
pub open spec fn detected_currency(observations: Seq<PriceObservation>) -> Seq<char>
    decreases observations.len(),
{
    if observations.len() == 0 {
        "GBP"@
    } else if observations.last().currency@.len() > 0 {
        observations.last().currency@
    } else {
        detected_currency(observations.drop_last())
    }
}

/// The series that a list of observations builds.
pub open spec fn series_of(observations: Seq<PriceObservation>) -> SeriesValue {
    SeriesValue { prices: price_map(observations), currency: detected_currency(observations) }
}

/// Whether entry `i` is the first entry for `ticker`.
pub open spec fn is_entry(names: Seq<Seq<char>>, ticker: Seq<char>, i: int) -> bool {
    &&& 0 <= i < names.len()
    &&& names[i] == ticker
    &&& forall|j: int| 0 <= j < i ==> names[j] != ticker
}

/// The first entry for a ticker is the only first entry.
pub proof fn lemma_entry_unique(names: Seq<Seq<char>>, ticker: Seq<char>, i: int, j: int)
    requires
        is_entry(names, ticker, i),
        is_entry(names, ticker, j),
    ensures
        i == j,
{
}

/// The value of a conversion's result.
pub open spec fn conversion_value(r: Result<Amount, ConversionError>) -> Result<
    DecimalValue,
    ConversionError,
> {
    match r {
        Ok(a) => Ok(a@),
        Err(e) => Err(e),
    }
}

/// A decimal operation's result as a conversion's result: no result is an overflow.
pub open spec fn or_overflow(r: Option<DecimalValue>) -> Result<DecimalValue, ConversionError> {
    match r {
        Some(v) => Ok(v),
        None => Err(ConversionError::Overflow),
    }
}

/// The price that stands for a day in a series.
pub fn fallback_in(prices: &HashMap<i32, Amount>, date: Date) -> (r: Amount)
    ensures
        r@ == fallback_price(prices@, date@),
{
    let day: i32 = date.day_number();
    let mut offset: i32 = 0;
    while offset <= BACK_WINDOW && day - offset >= MIN_DAY
        invariant
            0 <= offset <= BACK_WINDOW + 1,
            valid_day(day as int),
            day == date@,
            none_priced(prices@, day - offset + 1, day as int),
        decreases BACK_WINDOW + 1 - offset,
    {
        let check: i32 = day - offset;
        match prices.get(&check) {
            Some(p) => {
                if !p.is_zero() {
                    proof {
                        assert(priced(prices@, check as int));
                        assert(nearest_back(prices@, day as int, check as int));
                        let c = choose|d: int| nearest_back(prices@, day as int, d);
                        assert(nearest_back(prices@, day as int, c));
                        assert(c == check) by {
                            if c < check {
                                assert(!priced(prices@, check as int));
                            }
                            if c > check {
                                assert(!priced(prices@, c));
                            }
                        }
                    }
                    return *p;
                }
            },
            None => {},
        }
        assert(!priced(prices@, check as int));
        offset += 1;
    }
    proof {
        assert forall|d: int| !nearest_back(prices@, day as int, d) by {
            if nearest_back(prices@, day as int, d) {
                assert(!priced(prices@, d));
            }
        }
    }
    let mut ahead: i32 = 0;
    while ahead <= FORWARD_WINDOW && day + ahead <= MAX_DAY
        invariant
            0 <= ahead <= FORWARD_WINDOW + 1,
            valid_day(day as int),
            day == date@,
            forall|d: int| !nearest_back(prices@, day as int, d),
            none_priced(prices@, day as int, day + ahead - 1),
        decreases FORWARD_WINDOW + 1 - ahead,
    {
        let check: i32 = day + ahead;
        match prices.get(&check) {
            Some(p) => {
                if !p.is_zero() {
                    proof {
                        assert(priced(prices@, check as int));
                        assert(nearest_forward(prices@, day as int, check as int));
                        let c = choose|d: int| nearest_forward(prices@, day as int, d);
                        assert(nearest_forward(prices@, day as int, c));
                        assert(c == check) by {
                            if c < check {
                                assert(!priced(prices@, c));
                            }
                            if c > check {
                                assert(!priced(prices@, check as int));
                            }
                        }
                    }
                    return *p;
                }
            },
            None => {},
        }
        assert(!priced(prices@, check as int));
        ahead += 1;
    }
    proof {
        assert forall|d: int| !nearest_forward(prices@, day as int, d) by {
            if nearest_forward(prices@, day as int, d) {
                assert(!priced(prices@, d));
            }
        }
    }
    Amount::zero()
}

/// The map from day number to price that the observations build.
pub fn build_price_map(observations: &Vec<PriceObservation>) -> (r: HashMap<i32, Amount>)
    ensures
        r@ == price_map(observations@),
{
    let mut map: HashMap<i32, Amount> = HashMap::new();
    let mut i: usize = 0;
    while i < observations.len()
        invariant
            i <= observations.len(),
            map@ == price_map(observations@.take(i as int)),
        decreases observations.len() - i,
    {
        let day: i32 = observations[i].date.day_number();
        map.insert(day, observations[i].price);
        proof {
            assert(observations@.take(i + 1).drop_last() == observations@.take(i as int));
        }
        i += 1;
    }
    proof {
        assert(observations@.take(observations.len() as int) == observations@);
    }
    map
}

/// The currency that the observations report.
pub fn detect_currency(observations: &Vec<PriceObservation>) -> (r: String)
    ensures
        r@ == detected_currency(observations@),
{
    let mut currency: String = "GBP".to_owned();
    let mut i: usize = 0;
    while i < observations.len()
        invariant
            i <= observations.len(),
            currency@ == detected_currency(observations@.take(i as int)),
        decreases observations.len() - i,
    {
        if !observations[i].currency.as_str().is_empty() {
            currency = observations[i].currency.clone();
        }
        proof {
            assert(observations@.take(i + 1).drop_last() == observations@.take(i as int));
        }
        i += 1;
    }
    proof {
        assert(observations@.take(observations.len() as int) == observations@);
    }
    currency
}

impl PriceBook {
    /// The tickers of the entries, in their order.
    pub closed spec fn names(&self) -> Seq<Seq<char>> {
        self.entries@.map_values(|e: PriceSeries| e.ticker@)
    }

    /// The series stored for a ticker, if there is one.
    pub closed spec fn series(&self, ticker: Seq<char>) -> Option<SeriesValue> {
        if exists|i: int| is_entry(self.names(), ticker, i) {
            let i = choose|i: int| is_entry(self.names(), ticker, i);
            Some(SeriesValue { prices: self.entries[i].prices@, currency: self.entries[i].currency@ })
        } else {
            None
        }
    }

    /// Whether a series is stored for a ticker.
    pub open spec fn has(&self, ticker: Seq<char>) -> bool {
        self.series(ticker) is Some
    }

    /// The price that stands for a ticker on a day: zero for a ticker without
    /// a series.
    pub open spec fn resolved(&self, ticker: Seq<char>, day: int) -> DecimalValue {
        match self.series(ticker) {
            Some(s) => fallback_price(s.prices, day),
            None => zero_value(),
        }
    }

    /// The currency a ticker is quoted in: pounds for a ticker without a series.
    pub open spec fn currency(&self, ticker: Seq<char>) -> Seq<char> {
        match self.series(ticker) {
            Some(s) => s.currency,
            None => "GBP"@,
        }
    }

    /// A book without any series.
    pub fn new() -> (r: PriceBook)
        ensures
            forall|ticker: Seq<char>| !r.has(ticker),
    {
        let r = PriceBook { entries: Vec::new() };
        assert(r.names().len() == 0);
        r
    }

    fn find(&self, ticker: &str) -> (r: Option<usize>)
        ensures
            match r {
                Some(i) => is_entry(self.names(), ticker@, i as int) && i < self.entries.len(),
                None => forall|i: int| 0 <= i < self.names().len() ==> self.names()[i] != ticker@,
            },
    {
        let mut i: usize = 0;
        while i < self.entries.len()
            invariant
                i <= self.entries.len(),
                self.names().len() == self.entries.len(),
                forall|j: int| 0 <= j < i ==> self.names()[j] != ticker@,
            decreases self.entries.len() - i,
        {
            if same_text(self.entries[i].ticker.as_str(), ticker) {
                assert(self.names()[i as int] == ticker@);
                return Some(i);
            }
            i += 1;
        }
        None
    }

    /// Whether a series is stored for a ticker.
    pub fn contains(&self, ticker: &str) -> (b: bool)
        ensures
            b == self.has(ticker@),
    {
        self.find(ticker).is_some()
    }

    /// Stores the series that the observations build under the ticker,
    /// in place of the one stored before, if any.
    pub fn record(&mut self, ticker: &str, observations: &Vec<PriceObservation>)
        ensures
            final(self).series(ticker@) == Some(series_of(observations@)),
            forall|other: Seq<char>|
                other != ticker@ ==> final(self).series(other) == old(self).series(other),
    {
        let ghost before = *self;
        let series = PriceSeries {
            ticker: ticker.to_owned(),
            currency: detect_currency(observations),
            prices: build_price_map(observations),
        };
        let found = self.find(ticker);
        let ghost at: int;
        match found {
            Some(i) => {
                self.entries.set(i, series);
                proof {
                    at = i as int;
                }
            },
            None => {
                self.entries.push(series);
                proof {
                    at = before.entries.len() as int;
                }
            },
        }
        proof {
            let old_names = before.names();
            let new_names = self.names();
            assert(new_names[at] == ticker@);
            assert(forall|j: int| 0 <= j < old_names.len() && j != at ==> new_names[j] == old_names[j]);
            assert(forall|j: int|
                0 <= j < old_names.len() && j != at ==> self.entries[j] == before.entries[j]);
            assert(is_entry(new_names, ticker@, at));
            let k = choose|i: int| is_entry(new_names, ticker@, i);
            lemma_entry_unique(new_names, ticker@, k, at);
            assert forall|other: Seq<char>| other != ticker@ implies self.series(other)
                == before.series(other) by {
                if exists|i: int| is_entry(old_names, other, i) {
                    let i = choose|i: int| is_entry(old_names, other, i);
                    assert(is_entry(new_names, other, i));
                    let n = choose|i: int| is_entry(new_names, other, i);
                    lemma_entry_unique(new_names, other, n, i);
                } else {
                    if exists|i: int| is_entry(new_names, other, i) {
                        let n = choose|i: int| is_entry(new_names, other, i);
                        assert(is_entry(old_names, other, n));
                    }
                }
            }
        }
    }

    /// The currency a ticker is quoted in.
    pub fn currency_of(&self, ticker: &str) -> (r: String)
        ensures
            r@ == self.currency(ticker@),
    {
        match self.find(ticker) {
            Some(i) => {
                proof {
                    let k = choose|k: int| is_entry(self.names(), ticker@, k);
                    lemma_entry_unique(self.names(), ticker@, k, i as int);
                }
                self.entries[i].currency.clone()
            },
            None => "GBP".to_owned(),
        }
    }

    /// The price that stands for a ticker on a date: the price of that day
    /// if it is not zero, else the nearest earlier one within the backward
    /// window, else the nearest later one within the forward window, else
    /// zero. A ticker without a series has the price zero.
    pub fn get_price_with_fallback(&self, ticker: &str, date: Date) -> (r: Amount)
        ensures
            r@ == self.resolved(ticker@, date@),
    {
        match self.find(ticker) {
            Some(i) => {
                proof {
                    let k = choose|k: int| is_entry(self.names(), ticker@, k);
                    lemma_entry_unique(self.names(), ticker@, k, i as int);
                }
                fallback_in(&self.entries[i].prices, date)
            },
            None => Amount::zero(),
        }
    }
}

impl CurrencyConverter {
    /// The currencies of the rules, in their order.
    pub closed spec fn currencies(&self) -> Seq<Seq<char>> {
        self.rules@.map_values(|r: FxRule| r.currency@)
    }

    /// The rule for a currency, if there is one.
    pub closed spec fn rule(&self, currency: Seq<char>) -> Option<FxRuleValue> {
        if exists|i: int| is_entry(self.currencies(), currency, i) {
            let i = choose|i: int| is_entry(self.currencies(), currency, i);
            Some(FxRuleValue { fx_ticker: self.rules[i].fx_ticker@, multiply: self.rules[i].multiply })
        } else {
            None
        }
    }

    /// The ticker of the exchange rate that a currency needs, if a rule is known.
    pub open spec fn fx_ticker(&self, currency: Seq<char>) -> Option<Seq<char>> {
        match self.rule(currency) {
            Some(r) => Some(r.fx_ticker),
            None => None,
        }
    }

    /// An amount in pounds. Pounds pass unchanged and pence are divided by
    /// 100. Any other currency needs a rule and a rate that is not zero; the
    /// amount is multiplied by the rate or divided by it, as the rule says.
    pub open spec fn converted(
        &self,
        amount: DecimalValue,
        currency: Seq<char>,
        fx_rate: Option<DecimalValue>,
    ) -> Result<DecimalValue, ConversionError> {
        if currency == "GBP"@ {
            Ok(amount)
        } else if currency == "GBp"@ {
            or_overflow(quotient_of(amount, whole_value(100)))
        } else {
            match self.rule(currency) {
                None => Err(ConversionError::UnknownCurrency),
                Some(rule) => match fx_rate {
                    None => Err(ConversionError::MissingRate),
                    Some(rate) => if rate.mantissa == 0 {
                        Err(ConversionError::ZeroRate)
                    } else if rule.multiply {
                        or_overflow(product_of(amount, rate))
                    } else {
                        or_overflow(quotient_of(amount, rate))
                    },
                },
            }
        }
    }

    fn find(&self, currency: &str) -> (r: Option<usize>)
        ensures
            match r {
                Some(i) => is_entry(self.currencies(), currency@, i as int) && i < self.rules.len()
                    && self.rule(currency@) == Some(
                    FxRuleValue {
                        fx_ticker: self.rules[i as int].fx_ticker@,
                        multiply: self.rules[i as int].multiply,
                    },
                ),
                None => self.rule(currency@) is None,
            },
    {
        let mut i: usize = 0;
        while i < self.rules.len()
            invariant
                i <= self.rules.len(),
                self.currencies().len() == self.rules.len(),
                forall|j: int| 0 <= j < i ==> self.currencies()[j] != currency@,
            decreases self.rules.len() - i,
        {
            if same_text(self.rules[i].currency.as_str(), currency) {
                proof {
                    assert(self.currencies()[i as int] == currency@);
                    assert(is_entry(self.currencies(), currency@, i as int));
                    let k = choose|k: int| is_entry(self.currencies(), currency@, k);
                    lemma_entry_unique(self.currencies(), currency@, k, i as int);
                }
                return Some(i);
            }
            i += 1;
        }
        None
    }

    /// The converter with the two rules of the library: dollars are divided
    /// by the rate `GBPUSD=X`, euros are multiplied by the rate `EURGBP=X`.
    pub fn new() -> (r: CurrencyConverter)
        ensures
            r.rule("USD"@) == Some(FxRuleValue { fx_ticker: "GBPUSD=X"@, multiply: false }),
            r.rule("EUR"@) == Some(FxRuleValue { fx_ticker: "EURGBP=X"@, multiply: true }),
            forall|currency: Seq<char>|
                currency != "USD"@ && currency != "EUR"@ ==> r.rule(currency) is None,
    {
        let mut rules: Vec<FxRule> = Vec::new();
        rules.push(
            FxRule { currency: "USD".to_owned(), fx_ticker: "GBPUSD=X".to_owned(), multiply: false },
        );
        rules.push(
            FxRule { currency: "EUR".to_owned(), fx_ticker: "EURGBP=X".to_owned(), multiply: true },
        );
        let r = CurrencyConverter { rules };
        proof {
            reveal_strlit("USD");
            reveal_strlit("EUR");
            let names = r.currencies();
            assert(names.len() == 2);
            assert(names[0] == "USD"@);
            assert(names[1] == "EUR"@);
            assert("USD"@[0] != "EUR"@[0]);
            assert(is_entry(names, "USD"@, 0));
            assert(is_entry(names, "EUR"@, 1));
            let u = choose|i: int| is_entry(names, "USD"@, i);
            lemma_entry_unique(names, "USD"@, u, 0);
            let e = choose|i: int| is_entry(names, "EUR"@, i);
            lemma_entry_unique(names, "EUR"@, e, 1);
        }
        r
    }

    /// The ticker of the exchange rate that a currency needs.
    pub fn get_fx_ticker(&self, currency: &str) -> (r: Option<String>)
        ensures
            text_of(r) == self.fx_ticker(currency@),
    {
        match self.find(currency) {
            Some(i) => Some(self.rules[i].fx_ticker.clone()),
            None => None,
        }
    }

    /// Converts an amount quoted in `currency` into pounds, with the exchange
    /// rate that the caller looked up for the date.
    pub fn convert_to_gbp(
        &self,
        amount: Amount,
        currency: &str,
        date: Date,
        fx_rate: Option<Amount>,
    ) -> (r: Result<Amount, ConversionError>)
        ensures
            conversion_value(r) == self.converted(amount@, currency@, value_of(fx_rate)),
    {
        if same_text(currency, "GBP") {
            return Ok(amount);
        }
        if same_text(currency, "GBp") {
            return match amount.checked_div(Amount::from_int(100)) {
                Some(q) => Ok(q),
                None => Err(ConversionError::Overflow),
            };
        }
        match self.find(currency) {
            None => Err(ConversionError::UnknownCurrency),
            Some(i) => match fx_rate {
                None => Err(ConversionError::MissingRate),
                Some(rate) => {
                    if rate.is_zero() {
                        Err(ConversionError::ZeroRate)
                    } else {
                        let result = if self.rules[i].multiply {
                            amount.checked_mul(rate)
                        } else {
                            amount.checked_div(rate)
                        };
                        match result {
                            Some(c) => Ok(c),
                            None => Err(ConversionError::Overflow),
                        }
                    }
                },
            },
        }
    }
}

/// The exchange rate for a currency on a day: the price that stands for the
/// currency's rate ticker, if a rule is known and that price is not zero.
pub open spec fn fx_rate_on(
    book: &PriceBook,
    converter: &CurrencyConverter,
    currency: Seq<char>,
    day: int,
) -> Option<DecimalValue> {
    match converter.fx_ticker(currency) {
        Some(fx) => {
            let rate = book.resolved(fx, day);
            if rate.mantissa == 0 {
                None
            } else {
                Some(rate)
            }
        },
        None => None,
    }
}

/// The price of a ticker on a day in pounds: the price that stands for the
/// day, converted from the ticker's currency; the unconverted price where the
/// conversion fails.
pub open spec fn converted_price(
    book: &PriceBook,
    converter: &CurrencyConverter,
    ticker: Seq<char>,
    day: int,
) -> DecimalValue {
    let price = book.resolved(ticker, day);
    let currency = book.currency(ticker);
    match converter.converted(price, currency, fx_rate_on(book, converter, currency, day)) {
        Ok(c) => c,
        Err(_) => price,
    }
}

/// The prices of a ticker on each of the dates, as quoted and in pounds.
pub fn converted_prices(
    book: &PriceBook,
    converter: &CurrencyConverter,
    ticker: &str,
    dates: &Vec<Date>,
) -> (r: Vec<ConvertedPrice>)
    ensures
        r.len() == dates.len(),
        forall|i: int|
            0 <= i < dates.len() ==> (#[trigger] r[i]).original@ == book.resolved(
                ticker@,
                dates[i]@,
            ) && r[i].converted@ == converted_price(book, converter, ticker@, dates[i]@),
{
    let currency = book.currency_of(ticker);
    let fx_ticker = converter.get_fx_ticker(currency.as_str());
    let mut out: Vec<ConvertedPrice> = Vec::new();
    let mut i: usize = 0;
    while i < dates.len()
        invariant
            i <= dates.len(),
            out.len() == i,
            currency@ == book.currency(ticker@),
            text_of(fx_ticker) == converter.fx_ticker(currency@),
            forall|k: int|
                0 <= k < i ==> (#[trigger] out[k]).original@ == book.resolved(ticker@, dates[k]@)
                    && out[k].converted@ == converted_price(book, converter, ticker@, dates[k]@),
        decreases dates.len() - i,
    {
        let date = dates[i];
        let price = book.get_price_with_fallback(ticker, date);
        let fx_rate = match &fx_ticker {
            Some(fx) => {
                let rate = book.get_price_with_fallback(fx.as_str(), date);
                if rate.is_zero() {
                    None
                } else {
                    Some(rate)
                }
            },
            None => None,
        };
        let converted = match converter.convert_to_gbp(price, currency.as_str(), date, fx_rate) {
            Ok(c) => c,
            Err(_) => price,
        };
        out.push(ConvertedPrice { original: price, converted });
        i += 1;
    }
    out
}

/// Looking a price up again on the day it was found gives the same price:
/// the fallback depends on nothing but the stored prices and the day.
pub proof fn lemma_fallback_idempotent(prices: Map<i32, Amount>, day: int, found: int)
    requires
        valid_day(day),
        nearest_back(prices, day, found) || (nearest_forward(prices, day, found) && forall|d: int|
            !nearest_back(prices, day, d)),
    ensures
        fallback_price(prices, day) == stored_price(prices, found),
        fallback_price(prices, found) == fallback_price(prices, day),
{
    assert(nearest_back(prices, found, found));
    let at_found = choose|d: int| nearest_back(prices, found, d);
    assert(nearest_back(prices, found, at_found));
    assert(at_found == found) by {
        if at_found < found {
            assert(!priced(prices, found));
        }
    }
    if nearest_back(prices, day, found) {
        let c = choose|d: int| nearest_back(prices, day, d);
        assert(nearest_back(prices, day, c));
        assert(c == found) by {
            if c < found {
                assert(!priced(prices, found));
            }
            if c > found {
                assert(!priced(prices, c));
            }
        }
    } else {
        let c = choose|d: int| nearest_forward(prices, day, d);
        assert(nearest_forward(prices, day, c));
        assert(c == found) by {
            if c < found {
                assert(!priced(prices, c));
            }
            if c > found {
                assert(!priced(prices, found));
            }
        }
    }
}

/// The fallback never makes a price up: it is zero, or the price stored for
/// a day inside the search window, and it is zero only when no day of the
/// window has a usable price.
pub proof fn lemma_fallback_within_window(prices: Map<i32, Amount>, day: int)
    ensures
        fallback_price(prices, day).mantissa != 0 ==> exists|d: int|
            day - BACK_WINDOW <= d <= day + FORWARD_WINDOW && priced(prices, d) && fallback_price(
                prices,
                day,
            ) == stored_price(prices, d),
        fallback_price(prices, day).mantissa == 0 ==> forall|d: int|
            day - BACK_WINDOW <= d <= day + FORWARD_WINDOW && valid_day(d) ==> !priced(prices, d),
{
    if exists|d: int| nearest_back(prices, day, d) {
        let c = choose|d: int| nearest_back(prices, day, d);
        assert(priced(prices, c));
    } else if exists|d: int| nearest_forward(prices, day, d) {
        let c = choose|d: int| nearest_forward(prices, day, d);
        assert(priced(prices, c));
    } else {
        assert forall|d: int|
            day - BACK_WINDOW <= d <= day + FORWARD_WINDOW && valid_day(d) implies !priced(
            prices,
            d,
        ) by {
            if priced(prices, d) {
                if d <= day {
                    lemma_some_back(prices, day, d, day);
                } else {
                    lemma_some_forward(prices, day, d, day);
                }
            }
        }
    }
}

/// A usable price at `d`, at or before `day` and inside the backward window,
/// means that some day is the nearest one.
proof fn lemma_some_back(prices: Map<i32, Amount>, day: int, d: int, from: int)
    requires
        day - BACK_WINDOW <= d <= from <= day,
        MIN_DAY <= d,
        priced(prices, d),
        none_priced(prices, from + 1, day),
    ensures
        exists|f: int| nearest_back(prices, day, f),
    decreases from - d,
{
    if priced(prices, from) {
        assert(nearest_back(prices, day, from));
    } else {
        lemma_some_back(prices, day, d, from - 1);
    }
}

/// A usable price at `d`, at or after `day` and inside the forward window,
/// means that some day is the nearest one.
proof fn lemma_some_forward(prices: Map<i32, Amount>, day: int, d: int, from: int)
    requires
        day <= from <= d <= day + FORWARD_WINDOW,
        d <= MAX_DAY,
        priced(prices, d),
        none_priced(prices, day, from - 1),
    ensures
        exists|f: int| nearest_forward(prices, day, f),
    decreases d - from,
{
    if priced(prices, from) {
        assert(nearest_forward(prices, day, from));
    } else {
        lemma_some_forward(prices, day, d, from + 1);
    }
}

/// Where no price stands for a day, the price in pounds is zero as well,
/// whatever the currency and the exchange rate.
pub proof fn lemma_unpriced_converts_to_zero(
    book: &PriceBook,
    converter: &CurrencyConverter,
    ticker: Seq<char>,
    day: int,
)
    requires
        book.resolved(ticker, day).mantissa == 0,
    ensures
        converted_price(book, converter, ticker, day).mantissa == 0,
{
}

} // verus!

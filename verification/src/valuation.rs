//! Daily values: holdings times converted prices, ticker by ticker and in total.
//!
//! Every ticker has a value on every date, zero included, so that the values
//! form a full grid of dates by tickers.

use vstd::prelude::*;
use crate::date::Date;
use crate::decimal::{product_of, sum_of, zero_value, Amount, DecimalValue};
use crate::holdings::{ascending, holdings_on, simulate_holdings, sorted_by_day, ValuationError};
use crate::models::TradingRecord;
use crate::prices::{
    converted_price, converted_prices, lemma_fallback_within_window, lemma_unpriced_converts_to_zero,
    priced, stored_price, ConvertedPrice, CurrencyConverter, PriceBook, BACK_WINDOW, FORWARD_WINDOW,
};

verus! {

/// The value of one ticker on one date, as it is stored.
#[derive(Clone, Debug)]
pub struct TickerValueRow {
    pub date: Date,
    pub ticker: String,
    pub value: Amount,
}

/// The value of the whole portfolio on one date, as it is stored.
#[derive(Clone, Copy, Debug)]
pub struct PortfolioValueRow {
    pub date: Date,
    pub value: Amount,
}

/// The price of a ticker on a date, as quoted and in pounds, as it is stored.
#[derive(Clone, Debug)]
pub struct TickerPriceRow {
    pub ticker: String,
    pub date: Date,
    pub currency: String,
    pub original_price: Amount,
    pub converted_price: Amount,
}

/// The values of all tickers on all dates, and the total of each date.
#[derive(Clone, Debug)]
pub struct DailyValues {
    /// `values[d][t]` is the value of ticker `t` on date `d`.
    pub values: Vec<Vec<Amount>>,
    /// `totals[d]` is the value of the portfolio on date `d`.
    pub totals: Vec<Amount>,
}

/// The value of a position: shares times price, `None` on overflow.
pub open spec fn position_value(shares: DecimalValue, price: DecimalValue) -> Option<DecimalValue> {
    product_of(shares, price)
}

/// Whether holdings and prices cover `dates` dates and `tickers` tickers:
/// holdings date by date, prices ticker by ticker.
pub open spec fn grid_shaped(
    holdings: Seq<Vec<Amount>>,
    prices: Seq<Vec<ConvertedPrice>>,
    dates: int,
    tickers: int,
) -> bool {
    &&& holdings.len() == dates
    &&& prices.len() == tickers
    &&& forall|d: int| 0 <= d < dates ==> (#[trigger] holdings[d]).len() == tickers
    &&& forall|t: int| 0 <= t < tickers ==> (#[trigger] prices[t]).len() == dates
}

/// The total of the first `count` tickers on date `d`: the values added one
/// after the other, starting from zero. `None` when a value or a sum
/// overflows.
pub open spec fn day_total(
    shares: Seq<Amount>,
    prices: Seq<Vec<ConvertedPrice>>,
    d: int,
    count: int,
) -> Option<DecimalValue>
    decreases count,
{
    if count <= 0 {
        Some(zero_value())
    } else {
        match day_total(shares, prices, d, count - 1) {
            None => None,
            Some(total) => match position_value(
                shares[count - 1]@,
                prices[count - 1][d].converted@,
            ) {
                None => None,
                Some(value) => sum_of(total, value),
            },
        }
    }
}

/// A total that has overflowed stays overflowed as more tickers are added.
pub proof fn lemma_total_overflow_stays(
    shares: Seq<Amount>,
    prices: Seq<Vec<ConvertedPrice>>,
    d: int,
    count: int,
    more: int,
)
    requires
        0 <= count <= more,
        day_total(shares, prices, d, count) is None,
    ensures
        day_total(shares, prices, d, more) is None,
    decreases more - count,
{
    if count < more {
        lemma_total_overflow_stays(shares, prices, d, count, more - 1);
    }
}

/// A position without a price is worth nothing, and so is a price without a
/// position.
pub proof fn lemma_zero_value(shares: DecimalValue, price: DecimalValue)
    requires
        shares.mantissa == 0 || price.mantissa == 0,
    ensures
        position_value(shares, price) == Some(zero_value()),
{
}

/// Values every ticker on every date and totals each date. `holdings[d][t]`
/// are the shares of ticker `t` on date `d`, `prices[t][d]` its price on that
/// date. Fails when a value or a total overflows.
pub fn daily_values(holdings: &Vec<Vec<Amount>>, prices: &Vec<Vec<ConvertedPrice>>) -> (r: Result<
    DailyValues,
    ValuationError,
>)
    requires
        grid_shaped(holdings@, prices@, holdings.len() as int, prices.len() as int),
    ensures
        match r {
            Ok(v) => {
                &&& v.values.len() == holdings.len()
                &&& v.totals.len() == holdings.len()
                &&& forall|d: int|
                    0 <= d < holdings.len() ==> (#[trigger] v.values[d]).len() == prices.len()
                &&& forall|d: int, t: int|
                    0 <= d < holdings.len() && 0 <= t < prices.len() ==> Some(
                        #[trigger] v.values[d][t]@,
                    ) == position_value(holdings[d][t]@, prices[t][d].converted@)
                &&& forall|d: int|
                    0 <= d < holdings.len() ==> Some((#[trigger] v.totals[d])@) == day_total(
                        holdings[d]@,
                        prices@,
                        d,
                        prices.len() as int,
                    )
            },
            Err(_) => exists|d: int|
                0 <= d < holdings.len() && day_total(holdings[d]@, prices@, d, prices.len() as int)
                    is None,
        },
{
    let dates = holdings.len();
    let tickers = prices.len();
    let mut values: Vec<Vec<Amount>> = Vec::new();
    let mut totals: Vec<Amount> = Vec::new();
    let mut d: usize = 0;
    while d < dates
        invariant
            d <= dates,
            dates == holdings.len(),
            tickers == prices.len(),
            grid_shaped(holdings@, prices@, dates as int, tickers as int),
            values.len() == d,
            totals.len() == d,
            forall|e: int| 0 <= e < d ==> (#[trigger] values[e]).len() == tickers,
            forall|e: int, t: int|
                0 <= e < d && 0 <= t < tickers ==> Some(#[trigger] values[e][t]@) == position_value(
                    holdings[e][t]@,
                    prices[t][e].converted@,
                ),
            forall|e: int|
                0 <= e < d ==> Some((#[trigger] totals[e])@) == day_total(
                    holdings[e]@,
                    prices@,
                    e,
                    tickers as int,
                ),
        decreases dates - d,
    {
        let mut row: Vec<Amount> = Vec::new();
        let mut total = Amount::zero();
        let mut t: usize = 0;
        while t < tickers
            invariant
                t <= tickers,
                d < dates,
                dates == holdings.len(),
                tickers == prices.len(),
                grid_shaped(holdings@, prices@, dates as int, tickers as int),
                row.len() == t,
                forall|k: int|
                    0 <= k < t ==> Some((#[trigger] row[k])@) == position_value(
                        holdings[d as int][k]@,
                        prices[k][d as int].converted@,
                    ),
                Some(total@) == day_total(holdings[d as int]@, prices@, d as int, t as int),
            decreases tickers - t,
        {
            assert(holdings@[d as int].len() == tickers);
            assert(prices@[t as int].len() == dates);
            let shares = holdings[d][t];
            let price = prices[t][d].converted;
            let value = match shares.checked_mul(price) {
                Some(v) => v,
                None => {
                    proof {
                        assert(day_total(holdings[d as int]@, prices@, d as int, t + 1) is None);
                        lemma_total_overflow_stays(
                            holdings[d as int]@,
                            prices@,
                            d as int,
                            t + 1,
                            tickers as int,
                        );
                    }
                    return Err(ValuationError::Overflow);
                },
            };
            total = match total.checked_add(value) {
                Some(s) => s,
                None => {
                    proof {
                        assert(day_total(holdings[d as int]@, prices@, d as int, t + 1) is None);
                        lemma_total_overflow_stays(
                            holdings[d as int]@,
                            prices@,
                            d as int,
                            t + 1,
                            tickers as int,
                        );
                    }
                    return Err(ValuationError::Overflow);
                },
            };
            row.push(value);
            t += 1;
        }
        values.push(row);
        totals.push(total);
        d += 1;
    }
    Ok(DailyValues { values, totals })
}

/// The prices and the values of all tickers on all dates.
#[derive(Clone, Debug)]
pub struct Valuation {
    /// `prices[t][d]` is the price of ticker `t` on date `d`.
    pub prices: Vec<Vec<ConvertedPrice>>,
    /// The values that holdings and prices give.
    pub daily: DailyValues,
}

/// The value of a ticker on a day: the shares held on the day times the
/// price in pounds that stands for the day. `None` on overflow.
pub open spec fn ticker_value(
    trades: Seq<TradingRecord>,
    book: &PriceBook,
    converter: &CurrencyConverter,
    ticker: Seq<char>,
    day: int,
) -> Option<DecimalValue> {
    match holdings_on(trades, day, ticker) {
        Some(shares) => position_value(shares, converted_price(book, converter, ticker, day)),
        None => None,
    }
}

/// The value of the first `count` tickers together on a day: their values
/// added one after the other, starting from zero. `None` on overflow.
pub open spec fn portfolio_value(
    trades: Seq<TradingRecord>,
    book: &PriceBook,
    converter: &CurrencyConverter,
    tickers: Seq<String>,
    day: int,
    count: int,
) -> Option<DecimalValue>
    decreases count,
{
    if count <= 0 {
        Some(zero_value())
    } else {
        match portfolio_value(trades, book, converter, tickers, day, count - 1) {
            None => None,
            Some(total) => match ticker_value(trades, book, converter, tickers[count - 1]@, day) {
                None => None,
                Some(value) => sum_of(total, value),
            },
        }
    }
}

/// Whether a ticker has no usable price around a day: it has no series, or
/// no day of the search window has a price other than zero.
pub open spec fn unpriced_around(book: &PriceBook, ticker: Seq<char>, day: int) -> bool {
    match book.series(ticker) {
        Some(s) => forall|d: int|
            day - BACK_WINDOW <= d <= day + FORWARD_WINDOW ==> !priced(s.prices, d),
        None => true,
    }
}

/// The value of a ticker follows its price. It is the holding of the day
/// times the price in pounds that stands for the day; that price is taken
/// from a day of the search window; and where the window has no usable
/// price the value is zero, whatever is held.
pub proof fn lemma_value_follows_price(
    trades: Seq<TradingRecord>,
    book: &PriceBook,
    converter: &CurrencyConverter,
    ticker: Seq<char>,
    day: int,
    shares: DecimalValue,
)
    requires
        holdings_on(trades, day, ticker) == Some(shares),
    ensures
        ticker_value(trades, book, converter, ticker, day) == position_value(
            shares,
            converted_price(book, converter, ticker, day),
        ),
        book.resolved(ticker, day).mantissa != 0 ==> book.series(ticker) is Some && exists|d: int|
            day - BACK_WINDOW <= d <= day + FORWARD_WINDOW && priced(book.series(ticker)->0.prices, d)
                && book.resolved(ticker, day) == stored_price(book.series(ticker)->0.prices, d),
        unpriced_around(book, ticker, day) ==> ticker_value(trades, book, converter, ticker, day)
            == Some(zero_value()),
{
    match book.series(ticker) {
        Some(s) => {
            lemma_fallback_within_window(s.prices, day);
        },
        None => {},
    }
    if unpriced_around(book, ticker, day) {
        assert(book.resolved(ticker, day).mantissa == 0);
        lemma_unpriced_converts_to_zero(book, converter, ticker, day);
        lemma_zero_value(shares, converted_price(book, converter, ticker, day));
    }
}

/// A portfolio value that has overflowed stays overflowed as more tickers
/// are added.
pub proof fn lemma_portfolio_overflow_stays(
    trades: Seq<TradingRecord>,
    book: &PriceBook,
    converter: &CurrencyConverter,
    tickers: Seq<String>,
    day: int,
    count: int,
    more: int,
)
    requires
        0 <= count <= more,
        portfolio_value(trades, book, converter, tickers, day, count) is None,
    ensures
        portfolio_value(trades, book, converter, tickers, day, more) is None,
    decreases more - count,
{
    if count < more {
        lemma_portfolio_overflow_stays(trades, book, converter, tickers, day, count, more - 1);
    }
}

/// Where shares and prices are those of the ledger and the book, the total
/// of a day is the value of the portfolio on it.
pub proof fn lemma_total_is_portfolio_value(
    trades: Seq<TradingRecord>,
    book: &PriceBook,
    converter: &CurrencyConverter,
    tickers: Seq<String>,
    day: int,
    shares: Seq<Amount>,
    prices: Seq<Vec<ConvertedPrice>>,
    d: int,
    count: int,
)
    requires
        0 <= count <= tickers.len(),
        shares.len() == tickers.len(),
        prices.len() == tickers.len(),
        forall|t: int|
            0 <= t < tickers.len() ==> Some((#[trigger] shares[t])@) == holdings_on(
                trades,
                day,
                tickers[t]@,
            ),
        forall|t: int|
            0 <= t < tickers.len() ==> 0 <= d < (#[trigger] prices[t]).len() && prices[t][d].converted@
                == converted_price(book, converter, tickers[t]@, day),
    ensures
        day_total(shares, prices, d, count) == portfolio_value(
            trades,
            book,
            converter,
            tickers,
            day,
            count,
        ),
    decreases count,
{
    if count > 0 {
        lemma_total_is_portfolio_value(
            trades,
            book,
            converter,
            tickers,
            day,
            shares,
            prices,
            d,
            count - 1,
        );
        assert(Some(shares[count - 1]@) == holdings_on(trades, day, tickers[count - 1]@));
        assert(prices[count - 1][d].converted@ == converted_price(
            book,
            converter,
            tickers[count - 1]@,
            day,
        ));
    }
}

/// Values the portfolio on every date: replays the trades, prices every
/// ticker on every date and multiplies. The trades must stand in the order
/// of their days and the dates in ascending order. Fails when a holding, a
/// value or a total overflows.
pub fn value_portfolio(
    trades: &Vec<TradingRecord>,
    tickers: &Vec<String>,
    dates: &Vec<Date>,
    book: &PriceBook,
    converter: &CurrencyConverter,
) -> (r: Result<Valuation, ValuationError>)
    requires
        sorted_by_day(trades@),
        ascending(dates@),
    ensures
        match r {
            Ok(v) => {
                &&& v.prices.len() == tickers.len()
                &&& v.daily.values.len() == dates.len()
                &&& v.daily.totals.len() == dates.len()
                &&& forall|t: int| 0 <= t < tickers.len() ==> (#[trigger] v.prices[t]).len() == dates.len()
                &&& forall|d: int|
                    0 <= d < dates.len() ==> (#[trigger] v.daily.values[d]).len() == tickers.len()
                &&& forall|t: int, d: int|
                    0 <= t < tickers.len() && 0 <= d < dates.len() ==> (#[trigger] v.prices[t][d]).original@
                        == book.resolved(tickers[t]@, dates[d]@) && v.prices[t][d].converted@
                        == converted_price(book, converter, tickers[t]@, dates[d]@)
                &&& forall|d: int, t: int|
                    0 <= d < dates.len() && 0 <= t < tickers.len() ==> Some(
                        #[trigger] v.daily.values[d][t]@,
                    ) == ticker_value(trades@, book, converter, tickers[t]@, dates[d]@)
                &&& forall|d: int|
                    0 <= d < dates.len() ==> Some((#[trigger] v.daily.totals[d])@) == portfolio_value(
                        trades@,
                        book,
                        converter,
                        tickers@,
                        dates[d]@,
                        tickers.len() as int,
                    )
            },
            Err(_) => exists|d: int|
                0 <= d < dates.len() && portfolio_value(
                    trades@,
                    book,
                    converter,
                    tickers@,
                    dates[d]@,
                    tickers.len() as int,
                ) is None,
        },
{
    let mut prices: Vec<Vec<ConvertedPrice>> = Vec::new();
    let mut t: usize = 0;
    while t < tickers.len()
        invariant
            t <= tickers.len(),
            prices.len() == t,
            forall|k: int| 0 <= k < t ==> (#[trigger] prices[k]).len() == dates.len(),
            forall|k: int, d: int|
                0 <= k < t && 0 <= d < dates.len() ==> (#[trigger] prices[k][d]).original@
                    == book.resolved(tickers[k]@, dates[d]@) && prices[k][d].converted@
                    == converted_price(book, converter, tickers[k]@, dates[d]@),
        decreases tickers.len() - t,
    {
        let series = converted_prices(book, converter, tickers[t].as_str(), dates);
        prices.push(series);
        t += 1;
    }
    let holdings = match simulate_holdings(trades, tickers, dates) {
        Ok(h) => h,
        Err(e) => {
            proof {
                let (d, k) = choose|d: int, k: int|
                    0 <= d < dates.len() && 0 <= k < tickers.len() && holdings_on(
                        trades@,
                        dates[d]@,
                        tickers[k]@,
                    ) is None;
                assert(portfolio_value(trades@, book, converter, tickers@, dates[d]@, k + 1) is None);
                lemma_portfolio_overflow_stays(
                    trades@,
                    book,
                    converter,
                    tickers@,
                    dates[d]@,
                    k + 1,
                    tickers.len() as int,
                );
            }
            return Err(e);
        },
    };
    proof {
        assert forall|d: int| 0 <= d < dates.len() implies day_total(
            holdings[d]@,
            prices@,
            d,
            tickers.len() as int,
        ) == portfolio_value(trades@, book, converter, tickers@, dates[d]@, tickers.len() as int) by {
            assert forall|k: int| 0 <= k < tickers.len() implies Some((#[trigger] holdings[d]@[k])@)
                == holdings_on(trades@, dates[d]@, tickers[k]@) by {
                assert(Some(holdings[d][k]@) == holdings_on(trades@, dates[d]@, tickers[k]@));
            }
            assert forall|k: int| 0 <= k < tickers.len() implies 0 <= d < (#[trigger] prices@[k]).len()
                && prices@[k][d].converted@ == converted_price(
                book,
                converter,
                tickers[k]@,
                dates[d]@,
            ) by {
                assert(prices[k][d].converted@ == converted_price(
                    book,
                    converter,
                    tickers[k]@,
                    dates[d]@,
                ));
            }
            lemma_total_is_portfolio_value(
                trades@,
                book,
                converter,
                tickers@,
                dates[d]@,
                holdings[d]@,
                prices@,
                d,
                tickers.len() as int,
            );
        }
    }
    match daily_values(&holdings, &prices) {
        Ok(daily) => {
            proof {
                assert forall|d: int, k: int|
                    0 <= d < dates.len() && 0 <= k < tickers.len() implies Some(
                    #[trigger] daily.values[d][k]@,
                ) == ticker_value(trades@, book, converter, tickers[k]@, dates[d]@) by {
                    assert(Some(holdings[d][k]@) == holdings_on(trades@, dates[d]@, tickers[k]@));
                    assert(prices[k][d].converted@ == converted_price(
                        book,
                        converter,
                        tickers[k]@,
                        dates[d]@,
                    ));
                }
            }
            Ok(Valuation { prices, daily })
        },
        Err(e) => Err(e),
    }
}

/// Whether `rows` holds one row for each date and each ticker, date by date
/// and within a date ticker by ticker, with the value of the grid.
pub open spec fn covers_grid(
    rows: Seq<TickerValueRow>,
    dates: Seq<Date>,
    tickers: Seq<String>,
    values: Seq<Vec<Amount>>,
) -> bool {
    &&& rows.len() == dates.len() * tickers.len()
    &&& forall|d: int, t: int|
        0 <= d < dates.len() && 0 <= t < tickers.len() ==> {
            let row = #[trigger] rows[d * tickers.len() + t];
            row.date == dates[d] && row.ticker@ == tickers[t]@ && row.value == values[d][t]
        }
}

/// One row for every ticker on every date, the zero values included.
pub fn ticker_value_rows(dates: &Vec<Date>, tickers: &Vec<String>, values: &Vec<Vec<Amount>>) -> (r:
    Vec<TickerValueRow>)
    requires
        values.len() == dates.len(),
        forall|d: int| 0 <= d < dates.len() ==> (#[trigger] values[d]).len() == tickers.len(),
        dates.len() * tickers.len() <= usize::MAX,
    ensures
        covers_grid(r@, dates@, tickers@, values@),
{
    let n = tickers.len();
    let mut rows: Vec<TickerValueRow> = Vec::new();
    let mut d: usize = 0;
    while d < dates.len()
        invariant
            d <= dates.len(),
            n == tickers.len(),
            values.len() == dates.len(),
            forall|e: int| 0 <= e < dates.len() ==> (#[trigger] values[e]).len() == tickers.len(),
            rows.len() == d * n,
            forall|e: int, t: int|
                0 <= e < d && 0 <= t < n ==> {
                    let row = #[trigger] rows[e * n + t];
                    row.date == dates[e] && row.ticker@ == tickers[t]@ && row.value == values[e][t]
                },
        decreases dates.len() - d,
    {
        let mut t: usize = 0;
        while t < n
            invariant
                t <= n,
                d < dates.len(),
                n == tickers.len(),
                values.len() == dates.len(),
                values[d as int].len() == n,
                rows.len() == d * n + t,
                forall|e: int, k: int|
                    0 <= e < d && 0 <= k < n ==> {
                        let row = #[trigger] rows[e * n + k];
                        row.date == dates[e] && row.ticker@ == tickers[k]@ && row.value
                            == values[e][k]
                    },
                forall|k: int|
                    0 <= k < t ==> {
                        let row = #[trigger] rows[d * n + k];
                        row.date == dates[d as int] && row.ticker@ == tickers[k]@ && row.value
                            == values[d as int][k]
                    },
            decreases n - t,
        {
            let ghost before = rows@;
            rows.push(
                TickerValueRow { date: dates[d], ticker: tickers[t].clone(), value: values[d][t] },
            );
            proof {
                assert forall|e: int, k: int| 0 <= e < d && 0 <= k < n implies {
                    let row = #[trigger] rows[e * n + k];
                    row.date == dates[e] && row.ticker@ == tickers[k]@ && row.value == values[e][k]
                } by {
                    assert(e * n + k < d * n) by (nonlinear_arith)
                        requires
                            0 <= e < d,
                            0 <= k < n,
                    ;
                    assert(rows[e * n + k] == before[e * n + k]);
                }
                assert forall|k: int| 0 <= k < t + 1 implies {
                    let row = #[trigger] rows[d * n + k];
                    row.date == dates[d as int] && row.ticker@ == tickers[k]@ && row.value
                        == values[d as int][k]
                } by {
                    if k < t {
                        assert(rows[d * n + k] == before[d * n + k]);
                    }
                }
            }
            t += 1;
        }
        proof {
            assert((d + 1) * n == d * n + n) by (nonlinear_arith);
        }
        d += 1;
    }
    rows
}

/// One row for every date with the value of the portfolio on it.
pub fn portfolio_value_rows(dates: &Vec<Date>, totals: &Vec<Amount>) -> (r: Vec<PortfolioValueRow>)
    requires
        totals.len() == dates.len(),
    ensures
        r.len() == dates.len(),
        forall|d: int|
            0 <= d < dates.len() ==> (#[trigger] r[d]).date == dates[d] && r[d].value == totals[d],
{
    let mut rows: Vec<PortfolioValueRow> = Vec::new();
    let mut d: usize = 0;
    while d < dates.len()
        invariant
            d <= dates.len(),
            totals.len() == dates.len(),
            rows.len() == d,
            forall|e: int|
                0 <= e < d ==> (#[trigger] rows[e]).date == dates[e] && rows[e].value == totals[e],
        decreases dates.len() - d,
    {
        rows.push(PortfolioValueRow { date: dates[d], value: totals[d] });
        d += 1;
    }
    rows
}

/// Whether a row is the price row of the date with the given index.
pub open spec fn price_row_of(
    row: TickerPriceRow,
    ticker: Seq<char>,
    currency: Seq<char>,
    dates: Seq<Date>,
    prices: Seq<ConvertedPrice>,
    d: int,
) -> bool {
    &&& 0 <= d < dates.len()
    &&& row.ticker@ == ticker
    &&& row.currency@ == currency
    &&& row.date == dates[d]
    &&& row.original_price == prices[d].original
    &&& row.converted_price == prices[d].converted
    &&& prices[d].original@.mantissa != 0
}

/// Whether a row is the price row of one of the dates.
pub open spec fn is_price_row(
    row: TickerPriceRow,
    ticker: Seq<char>,
    currency: Seq<char>,
    dates: Seq<Date>,
    prices: Seq<ConvertedPrice>,
) -> bool {
    exists|d: int| price_row_of(row, ticker, currency, dates, prices, d)
}

/// Whether one of the rows is the price row of the date with the given index.
pub open spec fn has_price_row(
    rows: Seq<TickerPriceRow>,
    ticker: Seq<char>,
    currency: Seq<char>,
    dates: Seq<Date>,
    prices: Seq<ConvertedPrice>,
    d: int,
) -> bool {
    exists|i: int|
        0 <= i < rows.len() && price_row_of(#[trigger] rows[i], ticker, currency, dates, prices, d)
}

/// Whether the rows are the price rows of one ticker: a row for each date
/// whose price, before conversion, is not zero, and no other row.
pub open spec fn price_rows_of(
    rows: Seq<TickerPriceRow>,
    ticker: Seq<char>,
    currency: Seq<char>,
    dates: Seq<Date>,
    prices: Seq<ConvertedPrice>,
) -> bool {
    &&& forall|i: int|
        0 <= i < rows.len() ==> is_price_row(#[trigger] rows[i], ticker, currency, dates, prices)
    &&& forall|d: int|
        0 <= d < dates.len() && (#[trigger] prices[d]).original@.mantissa != 0 ==> has_price_row(
            rows,
            ticker,
            currency,
            dates,
            prices,
            d,
        )
}

/// The price rows of one ticker, in the order of the dates: a row for each
/// date whose price, before conversion, is not zero.
pub fn ticker_price_rows(
    ticker: &str,
    currency: &str,
    dates: &Vec<Date>,
    prices: &Vec<ConvertedPrice>,
) -> (r: Vec<TickerPriceRow>)
    requires
        prices.len() == dates.len(),
    ensures
        price_rows_of(r@, ticker@, currency@, dates@, prices@),
{
    let mut rows: Vec<TickerPriceRow> = Vec::new();
    let mut d: usize = 0;
    while d < dates.len()
        invariant
            d <= dates.len(),
            prices.len() == dates.len(),
            forall|i: int|
                0 <= i < rows.len() ==> is_price_row(
                    #[trigger] rows[i],
                    ticker@,
                    currency@,
                    dates@,
                    prices@,
                ),
            forall|e: int|
                0 <= e < d && (#[trigger] prices[e]).original@.mantissa != 0 ==> has_price_row(
                    rows@,
                    ticker@,
                    currency@,
                    dates@,
                    prices@,
                    e,
                ),
        decreases dates.len() - d,
    {
        let ghost before = rows@;
        if !prices[d].original.is_zero() {
            rows.push(
                TickerPriceRow {
                    ticker: ticker.to_owned(),
                    date: dates[d],
                    currency: currency.to_owned(),
                    original_price: prices[d].original,
                    converted_price: prices[d].converted,
                },
            );
            proof {
                let last = rows.len() - 1;
                assert(price_row_of(rows[last], ticker@, currency@, dates@, prices@, d as int));
            }
        }
        proof {
            assert forall|i: int| 0 <= i < rows.len() implies is_price_row(
                #[trigger] rows[i],
                ticker@,
                currency@,
                dates@,
                prices@,
            ) by {
                if i < before.len() {
                    assert(rows[i] == before[i]);
                }
            }
            assert forall|e: int|
                0 <= e < d + 1 && (#[trigger] prices[e]).original@.mantissa != 0 implies has_price_row(
                rows@,
                ticker@,
                currency@,
                dates@,
                prices@,
                e,
            ) by {
                if e < d {
                    let i = choose|i: int|
                        0 <= i < before.len() && price_row_of(
                            #[trigger] before[i],
                            ticker@,
                            currency@,
                            dates@,
                            prices@,
                            e,
                        );
                    assert(rows[i] == before[i]);
                } else {
                    let last = rows.len() - 1;
                    assert(price_row_of(rows[last], ticker@, currency@, dates@, prices@, e));
                }
            }
        }
        d += 1;
    }
    rows
}

/// Whether the tickers are all different.
pub open spec fn distinct(tickers: Seq<String>) -> bool {
    forall|i: int, j: int|
        0 <= i < tickers.len() && 0 <= j < tickers.len() && i != j ==> tickers[i]@ != tickers[j]@
}

/// Whether each date comes after the one before it.
pub open spec fn strictly_ascending(dates: Seq<Date>) -> bool {
    forall|i: int, j: int| 0 <= i < j < dates.len() ==> dates[i]@ < dates[j]@
}

/// Whether some row is for the given date and ticker.
pub open spec fn has_row(rows: Seq<TickerValueRow>, day: int, ticker: Seq<char>) -> bool {
    exists|i: int| 0 <= i < rows.len() && (#[trigger] rows[i]).date@ == day && rows[i].ticker@ == ticker
}

/// Whether a row is for one of the dates and one of the tickers.
pub open spec fn in_grid(row: TickerValueRow, dates: Seq<Date>, tickers: Seq<String>) -> bool {
    exists|d: int, t: int|
        #![trigger dates[d], tickers[t]]
        0 <= d < dates.len() && 0 <= t < tickers.len() && row.date@ == dates[d]@ && row.ticker@
            == tickers[t]@
}

/// Whether `rows` holds one row for each date and each ticker, date by date
/// and within a date ticker by ticker.
pub open spec fn laid_out(rows: Seq<TickerValueRow>, dates: Seq<Date>, tickers: Seq<String>) -> bool {
    &&& rows.len() == dates.len() * tickers.len()
    &&& forall|d: int, t: int|
        0 <= d < dates.len() && 0 <= t < tickers.len() ==> {
            let row = #[trigger] rows[d * tickers.len() + t];
            row.date == dates[d] && row.ticker@ == tickers[t]@
        }
}

/// Over different tickers and ascending dates, the rows of a grid hold each
/// pair of date and ticker once and once only, and hold nothing else.
pub proof fn lemma_grid_is_rectangular(
    rows: Seq<TickerValueRow>,
    dates: Seq<Date>,
    tickers: Seq<String>,
)
    requires
        laid_out(rows, dates, tickers),
        distinct(tickers),
        strictly_ascending(dates),
    ensures
        forall|d: int, t: int|
            #![trigger dates[d], tickers[t]]
            0 <= d < dates.len() && 0 <= t < tickers.len() ==> has_row(rows, dates[d]@, tickers[t]@),
        forall|i: int| 0 <= i < rows.len() ==> in_grid(#[trigger] rows[i], dates, tickers),
        forall|i: int, j: int|
            0 <= i < rows.len() && 0 <= j < rows.len() && (#[trigger] rows[i]).date@ == (
            #[trigger] rows[j]).date@ && rows[i].ticker@ == rows[j].ticker@ ==> i == j,
{
    let n = tickers.len() as int;
    assert forall|d: int, t: int|
        #![trigger dates[d], tickers[t]]
        0 <= d < dates.len() && 0 <= t < tickers.len() implies has_row(
        rows,
        dates[d]@,
        tickers[t]@,
    ) by {
        lemma_cell_in_range(d, t, dates.len() as int, n);
        let i = d * n + t;
        assert(rows[i].date@ == dates[d]@ && rows[i].ticker@ == tickers[t]@);
    }
    assert forall|i: int| 0 <= i < rows.len() implies in_grid(#[trigger] rows[i], dates, tickers) by {
        lemma_cell_of_index(i, dates.len() as int, n);
        let d = i / n;
        let t = i % n;
        assert(rows[d * n + t].date == dates[d] && rows[d * n + t].ticker@ == tickers[t]@);
    }
    assert forall|i: int, j: int|
        0 <= i < rows.len() && 0 <= j < rows.len() && (#[trigger] rows[i]).date@ == (
        #[trigger] rows[j]).date@ && rows[i].ticker@ == rows[j].ticker@ implies i == j by {
        lemma_cell_of_index(i, dates.len() as int, n);
        lemma_cell_of_index(j, dates.len() as int, n);
        let (di, ti) = (i / n, i % n);
        let (dj, tj) = (j / n, j % n);
        assert(rows[di * n + ti].date == dates[di] && rows[di * n + ti].ticker@ == tickers[ti]@);
        assert(rows[dj * n + tj].date == dates[dj] && rows[dj * n + tj].ticker@ == tickers[tj]@);
        assert(di == dj) by {
            if di < dj {
                assert(dates[di]@ < dates[dj]@);
            }
            if dj < di {
                assert(dates[dj]@ < dates[di]@);
            }
        }
        assert(ti == tj);
    }
}

/// The index of a cell of the grid lies in the grid.
proof fn lemma_cell_in_range(d: int, t: int, dates: int, n: int)
    requires
        0 <= d < dates,
        0 <= t < n,
    ensures
        0 <= d * n + t < dates * n,
{
    assert(d * n + t < dates * n) by (nonlinear_arith)
        requires
            0 <= d < dates,
            0 <= t < n,
    ;
    assert(0 <= d * n) by (nonlinear_arith)
        requires
            0 <= d,
            0 <= n,
    ;
}

/// An index of the grid is the index of the cell that division gives.
pub proof fn lemma_cell_of_index(i: int, dates: int, n: int)
    requires
        0 <= i < dates * n,
        0 <= n,
        0 <= dates,
    ensures
        n > 0,
        0 <= i / n < dates,
        0 <= i % n < n,
        i == (i / n) * n + i % n,
{
    assert(n > 0) by (nonlinear_arith)
        requires
            0 <= i < dates * n,
            0 <= n,
    ;
    vstd::arithmetic::div_mod::lemma_fundamental_div_mod(i, n);
    vstd::arithmetic::div_mod::lemma_mod_bound(i, n);
    let q = i / n;
    assert(i == n * q + i % n);
    assert(n * q == q * n) by (nonlinear_arith);
    assert(0 <= q < dates) by (nonlinear_arith)
        requires
            i == q * n + i % n,
            0 <= i % n < n,
            0 <= i < dates * n,
            n > 0,
    ;
}

} // verus!

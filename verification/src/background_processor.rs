//! The recomputation of the derived series, step by step.
//!
//! A run reads the ledgers, finds the tickers and the dates they span,
//! fetches prices and exchange rates, values the portfolio day by day and
//! rewrites the derived series. What a run decides and computes stands here;
//! reading, fetching and writing are the caller's part.

use vstd::prelude::*;
use crate::contributions::{
    lists_month, month_net, month_occurs, monthly_contributions, MonthlyContribution,
};
use crate::date::{valid_day, Date, MIN_DAY};
use crate::decimal::{zero_value, Amount, DecimalValue};
use crate::holdings::{in_time_order, sort_trades, ValuationError};
use crate::models::{CashFlowEvent, TradingRecord};
use crate::portfolio_stats::{
    calculate_portfolio_stats, elapsed, lemma_series_of_ascending_dates, solvable, summary,
    twr_periods, twr_scan, values_of,
    xirr_amounts, xirr_days, xirr_schedule, PortfolioStats, SummaryValue, TwrPeriods, XirrSchedule,
};
use crate::prices::{converted_price, CurrencyConverter, PriceBook};
use crate::sorting::{sorted_items, sorted_keys};
use crate::text::same_text;
use crate::valuation::{
    distinct, portfolio_value, portfolio_value_rows, price_row_of, ticker_price_rows,
    ticker_value, ticker_value_rows, value_portfolio, PortfolioValueRow, TickerPriceRow,
    TickerValueRow,
};

verus! {

/// How many days before the first ledger date the dates of a run begin.
pub const LOOKBACK_DAYS: i32 = 7;

/// The first day of a run whose ledgers begin on the day `first`: a week
/// earlier, or the first representable day if that is later.
pub open spec fn window_start(first: int) -> int {
    if first - LOOKBACK_DAYS >= MIN_DAY {
        first - LOOKBACK_DAYS
    } else {
        MIN_DAY as int
    }
}

/// What the ledgers span: the tickers that were traded and the first date.
#[derive(Clone, Debug)]
pub struct LedgerScope {
    pub tickers: Vec<String>,
    pub first_date: Date,
}

/// Whether a ticker is the ticker of one of the trades.
pub open spec fn traded(trades: Seq<TradingRecord>, ticker: Seq<char>) -> bool {
    exists|i: int| 0 <= i < trades.len() && (#[trigger] trades[i]).is_for(ticker)
}

/// Whether the list holds a ticker.
pub open spec fn lists(tickers: Seq<String>, ticker: Seq<char>) -> bool {
    exists|k: int| 0 <= k < tickers.len() && (#[trigger] tickers[k])@ == ticker
}

/// Whether a day is the day of a trade or of an external cash movement.
pub open spec fn ledger_day(trades: Seq<TradingRecord>, flows: Seq<CashFlowEvent>, day: int) -> bool {
    ||| exists|i: int| 0 <= i < trades.len() && (#[trigger] trades[i]).trade_day() == day
    ||| exists|i: int|
        0 <= i < flows.len() && (#[trigger] flows[i]).class.external() && flows[i].date@ == day
}

/// Whether the list holds the text.
fn listed(tickers: &Vec<String>, ticker: &str) -> (r: bool)
    ensures
        r == lists(tickers@, ticker@),
{
    let mut k: usize = 0;
    while k < tickers.len()
        invariant
            k <= tickers.len(),
            forall|j: int| 0 <= j < k ==> (#[trigger] tickers[j])@ != ticker@,
        decreases tickers.len() - k,
    {
        if same_text(tickers[k].as_str(), ticker) {
            return true;
        }
        k += 1;
    }
    false
}

/// The tickers that occur in the trades, each once, in the order in which
/// they first occur; and the earliest day of any trade or external cash
/// movement. `None` for a ledger without trades.
pub fn ledger_scope(trades: &Vec<TradingRecord>, flows: &Vec<CashFlowEvent>) -> (r: Option<LedgerScope>)
    ensures
        r is Some == (trades.len() > 0),
        match r {
            Some(scope) => {
                &&& distinct(scope.tickers@)
                &&& forall|k: int|
                    0 <= k < scope.tickers.len() ==> traded(trades@, (#[trigger] scope.tickers[k])@)
                &&& forall|ticker: Seq<char>|
                    traded(trades@, ticker) ==> lists(scope.tickers@, ticker)
                &&& ledger_day(trades@, flows@, scope.first_date@)
                &&& forall|day: int| ledger_day(trades@, flows@, day) ==> scope.first_date@ <= day
            },
            None => true,
        },
{
    if trades.len() == 0 {
        return None;
    }
    let mut tickers: Vec<String> = Vec::new();
    let mut first_date = trades[0].trade_date_time.date();
    let mut i: usize = 0;
    while i < trades.len()
        invariant
            i <= trades.len(),
            trades.len() > 0,
            distinct(tickers@),
            forall|k: int| 0 <= k < tickers.len() ==> traded(trades@, (#[trigger] tickers[k])@),
            forall|j: int, ticker: Seq<char>|
                0 <= j < i && (#[trigger] trades[j]).is_for(ticker) ==> #[trigger] lists(
                    tickers@,
                    ticker,
                ),
            exists|j: int| 0 <= j < trades.len() && (#[trigger] trades[j]).trade_day() == first_date@,
            forall|j: int| 0 <= j < i ==> first_date@ <= (#[trigger] trades[j]).trade_day(),
        decreases trades.len() - i,
    {
        let ghost before = tickers@;
        match &trades[i].ticker {
            Some(ticker) => {
                if !listed(&tickers, ticker.as_str()) {
                    tickers.push(ticker.clone());
                    proof {
                        assert(trades[i as int].is_for(ticker@));
                        assert forall|j: int, name: Seq<char>|
                            0 <= j < i && (#[trigger] trades[j]).is_for(name) implies #[trigger] lists(
                            tickers@,
                            name,
                        ) by {
                            assert(lists(before, name));
                            let k = choose|k: int| 0 <= k < before.len() && (#[trigger] before[k])@ == name;
                            assert(tickers[k]@ == name);
                        }
                    }
                }
                proof {
                    assert forall|name: Seq<char>| (#[trigger] trades[i as int].is_for(name)) implies lists(
                        tickers@,
                        name,
                    ) by {
                        assert(name == ticker@);
                        if lists(before, name) {
                            let k = choose|k: int| 0 <= k < before.len() && (#[trigger] before[k])@ == name;
                            assert(tickers[k]@ == name);
                        } else {
                            assert(tickers[tickers.len() - 1]@ == name);
                        }
                    }
                }
            },
            None => {},
        }
        let date = trades[i].trade_date_time.date();
        if date.lt(first_date) {
            first_date = date;
        }
        i += 1;
    }
    let mut f: usize = 0;
    while f < flows.len()
        invariant
            f <= flows.len(),
            ledger_day(trades@, flows@, first_date@),
            forall|j: int| 0 <= j < trades.len() ==> first_date@ <= (#[trigger] trades[j]).trade_day(),
            forall|j: int|
                0 <= j < f && (#[trigger] flows[j]).class.external() ==> first_date@ <= flows[j].date@,
        decreases flows.len() - f,
    {
        if flows[f].class.is_external() && flows[f].date.lt(first_date) {
            first_date = flows[f].date;
        }
        f += 1;
    }
    proof {
        assert forall|ticker: Seq<char>| traded(trades@, ticker) implies lists(tickers@, ticker) by {
            let j = choose|j: int| 0 <= j < trades.len() && (#[trigger] trades[j]).is_for(ticker);
            assert(lists(tickers@, ticker));
        }
    }
    Some(LedgerScope { tickers, first_date })
}

/// The first date of a run: a week before the first ledger date, or the
/// first representable date if that is later.
pub fn lookback_start(first_date: Date) -> (r: Date)
    ensures
        r@ == window_start(first_date@),
{
    let day: i32 = first_date.day_number();
    let start: i32 = if day - LOOKBACK_DAYS >= MIN_DAY {
        day - LOOKBACK_DAYS
    } else {
        MIN_DAY
    };
    match Date::from_day_number(start) {
        Some(d) => d,
        None => first_date,
    }
}

/// Every date from `first` to `last`, in order; no date where `last` comes
/// before `first`.
pub fn date_grid(first: Date, last: Date) -> (r: Vec<Date>)
    ensures
        r.len() == if last@ >= first@ {
            last@ - first@ + 1
        } else {
            0
        },
        forall|i: int| 0 <= i < r.len() ==> (#[trigger] r[i])@ == first@ + i,
        forall|i: int| 0 <= i < r.len() ==> valid_day((#[trigger] r[i])@),
{
    let mut dates: Vec<Date> = Vec::new();
    let first_day: i32 = first.day_number();
    let last_day: i32 = last.day_number();
    if last_day < first_day {
        return dates;
    }
    let mut current = first;
    dates.push(current);
    while current.day_number() < last_day
        invariant
            first@ <= current@ <= last@,
            last_day == last@,
            valid_day(last@),
            valid_day(first@),
            dates.len() == current@ - first@ + 1,
            forall|i: int| 0 <= i < dates.len() ==> (#[trigger] dates[i])@ == first@ + i,
        decreases last@ - current@,
    {
        match current.succ_opt() {
            Some(next) => {
                current = next;
                dates.push(current);
            },
            None => {
                return dates;
            },
        }
    }
    dates
}

/// Whether an exchange rate has to be fetched under a ticker: a traded
/// ticker with prices is quoted in a currency other than pounds whose rule
/// names the ticker, and the book has no series for it yet.
pub open spec fn rate_needed(
    book: &PriceBook,
    converter: &CurrencyConverter,
    tickers: Seq<String>,
    fx_ticker: Seq<char>,
) -> bool {
    &&& !book.has(fx_ticker)
    &&& exists|t: int|
        0 <= t < tickers.len() && book.has((#[trigger] tickers[t])@) && book.currency(tickers[t]@)
            != "GBP"@ && book.currency(tickers[t]@) != "GBp"@ && converter.fx_ticker(
            book.currency(tickers[t]@),
        ) == Some(fx_ticker)
}

/// The tickers of the exchange rates that have yet to be fetched, each once.
pub fn fx_tickers_needed(book: &PriceBook, converter: &CurrencyConverter, tickers: &Vec<String>) -> (r:
    Vec<String>)
    ensures
        distinct(r@),
        forall|k: int|
            0 <= k < r.len() ==> rate_needed(book, converter, tickers@, (#[trigger] r[k])@),
        forall|fx: Seq<char>| rate_needed(book, converter, tickers@, fx) ==> lists(r@, fx),
{
    let mut needed: Vec<String> = Vec::new();
    let mut t: usize = 0;
    while t < tickers.len()
        invariant
            t <= tickers.len(),
            distinct(needed@),
            forall|k: int|
                0 <= k < needed.len() ==> rate_needed(book, converter, tickers@, (#[trigger] needed[k])@),
            forall|j: int, fx: Seq<char>|
                0 <= j < t && !book.has(fx) && book.has((#[trigger] tickers[j])@) && book.currency(
                    tickers[j]@,
                ) != "GBP"@ && book.currency(tickers[j]@) != "GBp"@ && converter.fx_ticker(
                    book.currency(tickers[j]@),
                ) == Some(fx) ==> #[trigger] lists(needed@, fx),
        decreases tickers.len() - t,
    {
        let ghost before = needed@;
        let ticker = tickers[t].as_str();
        if book.contains(ticker) {
            let currency = book.currency_of(ticker);
            if !same_text(currency.as_str(), "GBP") && !same_text(currency.as_str(), "GBp") {
                match converter.get_fx_ticker(currency.as_str()) {
                    Some(fx) => {
                        if !book.contains(fx.as_str()) && !listed(&needed, fx.as_str()) {
                            needed.push(fx);
                        }
                    },
                    None => {},
                }
            }
        }
        proof {
            assert forall|j: int, fx: Seq<char>|
                0 <= j < t + 1 && !book.has(fx) && book.has((#[trigger] tickers[j])@)
                    && book.currency(tickers[j]@) != "GBP"@ && book.currency(tickers[j]@) != "GBp"@
                    && converter.fx_ticker(book.currency(tickers[j]@)) == Some(fx) implies #[trigger] lists(
                needed@,
                fx,
            ) by {
                if j < t {
                    assert(lists(before, fx));
                    let k = choose|k: int| 0 <= k < before.len() && (#[trigger] before[k])@ == fx;
                    assert(needed[k]@ == fx);
                } else {
                    if lists(before, fx) {
                        let k = choose|k: int| 0 <= k < before.len() && (#[trigger] before[k])@ == fx;
                        assert(needed[k]@ == fx);
                    } else {
                        assert(needed[needed.len() - 1]@ == fx);
                    }
                }
            }
        }
        t += 1;
    }
    proof {
        assert forall|fx: Seq<char>| rate_needed(book, converter, tickers@, fx) implies lists(
            needed@,
            fx,
        ) by {
            let j = choose|j: int|
                0 <= j < tickers.len() && book.has((#[trigger] tickers[j])@) && book.currency(
                    tickers[j]@,
                ) != "GBP"@ && book.currency(tickers[j]@) != "GBp"@ && converter.fx_ticker(
                    book.currency(tickers[j]@),
                ) == Some(fx);
            assert(lists(needed@, fx));
        }
    }
    needed
}

/// Everything a run derives from the ledgers and the prices.
#[derive(Clone, Debug)]
pub struct PrecomputedData {
    /// Every date of the run, in order.
    pub dates: Vec<Date>,
    /// A row for each ticker and date that has a price.
    pub ticker_prices: Vec<TickerPriceRow>,
    /// A row for each date and each ticker, date by date.
    pub ticker_values: Vec<TickerValueRow>,
    /// A row for each date.
    pub portfolio_values: Vec<PortfolioValueRow>,
    /// A row for each month in which a trade or an external cash movement falls.
    pub monthly_contributions: Vec<MonthlyContribution>,
    /// Totals, profit and return.
    pub stats: PortfolioStats,
    /// The cash flows of the money-weighted rate, if a root is to be looked for.
    pub xirr: Option<XirrSchedule>,
    /// The sub-periods of the time-weighted rate.
    pub twr: TwrPeriods,
}

/// The external cash movements among the flows, in their order.
pub open spec fn external_only(flows: Seq<CashFlowEvent>) -> Seq<CashFlowEvent>
    decreases flows.len(),
{
    if flows.len() == 0 {
        Seq::empty()
    } else if flows.last().class.external() {
        external_only(flows.drop_last()).push(flows.last())
    } else {
        external_only(flows.drop_last())
    }
}

/// The external cash movements among the flows, in their order.
pub fn external_flows(flows: &Vec<CashFlowEvent>) -> (r: Vec<CashFlowEvent>)
    ensures
        r@ == external_only(flows@),
{
    let mut out: Vec<CashFlowEvent> = Vec::new();
    let mut i: usize = 0;
    assert(flows@.take(0) =~= Seq::empty());
    while i < flows.len()
        invariant
            i <= flows.len(),
            out@ == external_only(flows@.take(i as int)),
        decreases flows.len() - i,
    {
        proof {
            assert(flows@.take(i + 1).drop_last() == flows@.take(i as int));
            assert(flows@.take(i + 1).last() == flows[i as int]);
        }
        if flows[i].class.is_external() {
            out.push(flows[i]);
        }
        i += 1;
    }
    proof {
        assert(flows@.take(flows.len() as int) == flows@);
    }
    out
}

/// Whether the dates are every date from `first` to `last`, in order.
pub open spec fn is_grid(dates: Seq<Date>, first: int, last: int) -> bool {
    &&& dates.len() == if last >= first {
        last - first + 1
    } else {
        0
    }
    &&& forall|i: int| 0 <= i < dates.len() ==> (#[trigger] dates[i])@ == first + i
}

/// Whether a row is the price row of a ticker on a day, as the book has it.
pub open spec fn book_price_row(
    row: TickerPriceRow,
    book: &PriceBook,
    converter: &CurrencyConverter,
    ticker: Seq<char>,
    day: int,
) -> bool {
    &&& row.ticker@ == ticker
    &&& row.date@ == day
    &&& row.currency@ == book.currency(ticker)
    &&& row.original_price@ == book.resolved(ticker, day)
    &&& row.original_price@.mantissa != 0
    &&& row.converted_price@ == converted_price(book, converter, ticker, day)
}

/// Whether a row is the price row of one of the tickers on one of the dates.
pub open spec fn is_book_price_row(
    row: TickerPriceRow,
    book: &PriceBook,
    converter: &CurrencyConverter,
    tickers: Seq<String>,
    dates: Seq<Date>,
) -> bool {
    exists|t: int, d: int|
        #![trigger tickers[t], dates[d]]
        0 <= t < tickers.len() && 0 <= d < dates.len() && book_price_row(
            row,
            book,
            converter,
            tickers[t]@,
            dates[d]@,
        )
}

/// Whether one of the rows is the price row of the ticker on the day.
pub open spec fn has_book_price_row(
    rows: Seq<TickerPriceRow>,
    book: &PriceBook,
    converter: &CurrencyConverter,
    ticker: Seq<char>,
    day: int,
) -> bool {
    exists|i: int| 0 <= i < rows.len() && book_price_row(#[trigger] rows[i], book, converter, ticker, day)
}

/// Whether the rows are the price rows of the first `count` tickers: a row
/// for each of these tickers and each date on which a price stands for the
/// ticker, and no other row.
pub open spec fn price_rows_cover(
    rows: Seq<TickerPriceRow>,
    book: &PriceBook,
    converter: &CurrencyConverter,
    tickers: Seq<String>,
    dates: Seq<Date>,
    count: int,
) -> bool {
    &&& forall|i: int|
        0 <= i < rows.len() ==> is_book_price_row(
            #[trigger] rows[i],
            book,
            converter,
            tickers.take(count),
            dates,
        )
    &&& forall|t: int, d: int|
        #![trigger tickers[t], dates[d]]
        0 <= t < count && 0 <= d < dates.len() && book.resolved(tickers[t]@, dates[d]@).mantissa
            != 0 ==> has_book_price_row(rows, book, converter, tickers[t]@, dates[d]@)
}

/// Whether the rows hold the value of each ticker on each date, date by
/// date and within a date ticker by ticker.
pub open spec fn value_rows_cover(
    rows: Seq<TickerValueRow>,
    trades: Seq<TradingRecord>,
    book: &PriceBook,
    converter: &CurrencyConverter,
    tickers: Seq<String>,
    dates: Seq<Date>,
) -> bool {
    &&& rows.len() == dates.len() * tickers.len()
    &&& forall|d: int, t: int|
        0 <= d < dates.len() && 0 <= t < tickers.len() ==> {
            let row = #[trigger] rows[d * tickers.len() + t];
            row.date == dates[d] && row.ticker@ == tickers[t]@ && Some(row.value@) == ticker_value(
                trades,
                book,
                converter,
                tickers[t]@,
                dates[d]@,
            )
        }
}

/// Whether the rows hold the value of the portfolio on each date.
pub open spec fn total_rows_cover(
    rows: Seq<PortfolioValueRow>,
    trades: Seq<TradingRecord>,
    book: &PriceBook,
    converter: &CurrencyConverter,
    tickers: Seq<String>,
    dates: Seq<Date>,
) -> bool {
    &&& rows.len() == dates.len()
    &&& forall|d: int|
        0 <= d < dates.len() ==> (#[trigger] rows[d]).date == dates[d] && Some(rows[d].value@)
            == portfolio_value(trades, book, converter, tickers, dates[d]@, tickers.len() as int)
}

/// Whether the rows hold the net contribution of each month that occurs in
/// the ledgers, each month once.
pub open spec fn month_rows_cover(
    rows: Seq<MonthlyContribution>,
    trades: Seq<TradingRecord>,
    flows: Seq<CashFlowEvent>,
) -> bool {
    &&& forall|i: int, j: int|
        0 <= i < j < rows.len() ==> (#[trigger] rows[i]).month@ != (#[trigger] rows[j]).month@
    &&& forall|k: int|
        0 <= k < rows.len() ==> month_occurs(trades, flows, (#[trigger] rows[k]).month@) && Some(
            rows[k].net_value@,
        ) == month_net(trades, flows, rows[k].month@)
    &&& forall|month: Seq<char>| month_occurs(trades, flows, month) ==> lists_month(rows, month)
}

/// The values of the rows, in their order.
pub open spec fn row_totals(rows: Seq<PortfolioValueRow>) -> Seq<Amount> {
    rows.map_values(|r: PortfolioValueRow| r.value)
}

/// The value of the portfolio on the last date: zero where there is no date.
pub open spec fn closing_value(rows: Seq<PortfolioValueRow>) -> DecimalValue {
    if rows.len() == 0 {
        zero_value()
    } else {
        rows.last().value@
    }
}

/// Whether the figures are those of the cash flows and the value.
pub open spec fn stats_match(
    stats: PortfolioStats,
    flows: Seq<CashFlowEvent>,
    current: DecimalValue,
    today: int,
) -> bool {
    &&& summary(flows, current) == Some(
        SummaryValue {
            total_invested: stats.total_invested@,
            total_withdrawn: stats.total_withdrawn@,
            profit_loss: stats.profit_loss@,
            return_percentage: stats.return_percentage@,
        },
    )
    &&& stats.current_value@ == current
    &&& stats.calc_date@ == today
}

/// Whether the schedule is that of the cash flows and the value.
pub open spec fn xirr_matches(
    xirr: Option<XirrSchedule>,
    flows: Seq<CashFlowEvent>,
    current: DecimalValue,
    today: int,
) -> bool {
    &&& xirr is Some == solvable(xirr_amounts(flows, current))
    &&& xirr matches Some(s) ==> {
        let amounts = xirr_amounts(flows, current);
        let days = xirr_days(flows, today);
        &&& values_of(s.amounts@) == sorted_items(amounts, days)
        &&& s.day_offsets.len() == days.len()
        &&& forall|i: int|
            0 <= i < days.len() ==> (#[trigger] s.day_offsets[i]) == sorted_keys(days)[i]
                - sorted_keys(days)[0]
    }
}

/// Whether the sub-periods are those of the value series and the cash flows.
pub open spec fn twr_matches(
    twr: TwrPeriods,
    dates: Seq<Date>,
    totals: Seq<Amount>,
    flows: Seq<CashFlowEvent>,
    today: int,
) -> bool {
    twr_scan(dates, totals, flows, today, dates.len() as int) matches Some(state) && values_of(
        twr.factors@,
    ) == state.factors && twr.break_count == state.break_count && twr.elapsed_days == elapsed(
        dates,
        today,
    )
}

/// Whether `data` is what the ledgers and the prices give for a run on the
/// day `today`.
pub open spec fn computed(
    data: PrecomputedData,
    trades: Seq<TradingRecord>,
    flows: Seq<CashFlowEvent>,
    tickers: Seq<String>,
    first: int,
    today: int,
    book: &PriceBook,
    converter: &CurrencyConverter,
) -> bool {
    let ordered = in_time_order(trades);
    let external = external_only(flows);
    let current = closing_value(data.portfolio_values@);
    &&& is_grid(data.dates@, first, today)
    &&& price_rows_cover(
        data.ticker_prices@,
        book,
        converter,
        tickers,
        data.dates@,
        tickers.len() as int,
    )
    &&& value_rows_cover(data.ticker_values@, ordered, book, converter, tickers, data.dates@)
    &&& total_rows_cover(data.portfolio_values@, ordered, book, converter, tickers, data.dates@)
    &&& month_rows_cover(data.monthly_contributions@, trades, flows)
    &&& stats_match(data.stats, external, current, today)
    &&& xirr_matches(data.xirr, external, current, today)
    &&& twr_matches(data.twr, data.dates@, row_totals(data.portfolio_values@), external, today)
}

/// Whether the totals are the values of the portfolio on the dates, and
/// either the figures or the sub-periods that follow from them overflow.
pub open spec fn closing_overflows(
    dates: Seq<Date>,
    totals: Seq<Amount>,
    trades: Seq<TradingRecord>,
    flows: Seq<CashFlowEvent>,
    tickers: Seq<String>,
    first: int,
    today: int,
    book: &PriceBook,
    converter: &CurrencyConverter,
) -> bool {
    let current = if totals.len() == 0 {
        zero_value()
    } else {
        totals.last()@
    };
    &&& is_grid(dates, first, today)
    &&& totals.len() == dates.len()
    &&& forall|d: int|
        0 <= d < dates.len() ==> Some((#[trigger] totals[d])@) == portfolio_value(
            trades,
            book,
            converter,
            tickers,
            dates[d]@,
            tickers.len() as int,
        )
    &&& (summary(flows, current) is None || twr_scan(dates, totals, flows, today, dates.len() as int)
        is None)
}

/// Whether a run on the day `today` meets an amount that no decimal holds,
/// or a grid that no vector holds.
pub open spec fn overflows(
    trades: Seq<TradingRecord>,
    flows: Seq<CashFlowEvent>,
    tickers: Seq<String>,
    first: int,
    today: int,
    book: &PriceBook,
    converter: &CurrencyConverter,
) -> bool {
    ||| exists|month: Seq<char>| month_net(trades, flows, month) is None
    ||| exists|day: int|
        first <= day <= today && portfolio_value(
            in_time_order(trades),
            book,
            converter,
            tickers,
            day,
            tickers.len() as int,
        ) is None
    ||| today >= first && (today - first + 1) * tickers.len() > usize::MAX
    ||| exists|dates: Seq<Date>, totals: Seq<Amount>|
        closing_overflows(
            dates,
            totals,
            in_time_order(trades),
            external_only(flows),
            tickers,
            first,
            today,
            book,
            converter,
        )
}

/// The price rows of all tickers, ticker by ticker.
pub fn all_price_rows(
    tickers: &Vec<String>,
    dates: &Vec<Date>,
    prices: &Vec<Vec<crate::prices::ConvertedPrice>>,
    book: &PriceBook,
    converter: &CurrencyConverter,
) -> (r: Vec<TickerPriceRow>)
    requires
        prices.len() == tickers.len(),
        forall|t: int| 0 <= t < tickers.len() ==> (#[trigger] prices[t]).len() == dates.len(),
        forall|t: int, d: int|
            0 <= t < tickers.len() && 0 <= d < dates.len() ==> (#[trigger] prices[t][d]).original@
                == book.resolved(tickers[t]@, dates[d]@) && prices[t][d].converted@
                == converted_price(book, converter, tickers[t]@, dates[d]@),
    ensures
        price_rows_cover(r@, book, converter, tickers@, dates@, tickers.len() as int),
{
    let mut rows: Vec<TickerPriceRow> = Vec::new();
    let mut t: usize = 0;
    while t < tickers.len()
        invariant
            t <= tickers.len(),
            prices.len() == tickers.len(),
            forall|k: int| 0 <= k < tickers.len() ==> (#[trigger] prices[k]).len() == dates.len(),
            forall|k: int, d: int|
                0 <= k < tickers.len() && 0 <= d < dates.len() ==> (#[trigger] prices[k][d]).original@
                    == book.resolved(tickers[k]@, dates[d]@) && prices[k][d].converted@
                    == converted_price(book, converter, tickers[k]@, dates[d]@),
            price_rows_cover(rows@, book, converter, tickers@, dates@, t as int),
        decreases tickers.len() - t,
    {
        let ghost before = rows@;
        let currency = book.currency_of(tickers[t].as_str());
        let mut more = ticker_price_rows(tickers[t].as_str(), currency.as_str(), dates, &prices[t]);
        let ghost added = more@;
        rows.append(&mut more);
        proof {
            let name = tickers[t as int]@;
            let series = prices[t as int]@;
            assert forall|i: int| 0 <= i < rows.len() implies is_book_price_row(
                #[trigger] rows[i],
                book,
                converter,
                tickers@.take(t + 1),
                dates@,
            ) by {
                if i < before.len() {
                    assert(rows[i] == before[i]);
                    assert(is_book_price_row(before[i], book, converter, tickers@.take(t as int), dates@));
                    let (k, d) = choose|k: int, d: int|
                        #![trigger tickers@.take(t as int)[k], dates@[d]]
                        0 <= k < tickers@.take(t as int).len() && 0 <= d < dates.len()
                            && book_price_row(
                            before[i],
                            book,
                            converter,
                            tickers@.take(t as int)[k]@,
                            dates[d]@,
                        );
                    assert(tickers@.take(t + 1)[k] == tickers@.take(t as int)[k]);
                    assert(book_price_row(
                        rows[i],
                        book,
                        converter,
                        tickers@.take(t + 1)[k]@,
                        dates@[d]@,
                    ));
                } else {
                    let row = added[i - before.len()];
                    assert(rows[i] == row);
                    assert(crate::valuation::is_price_row(row, name, currency@, dates@, series));
                    let d = choose|d: int| price_row_of(row, name, currency@, dates@, series, d);
                    assert(prices[t as int][d].original@ == book.resolved(name, dates[d]@));
                    assert(tickers@.take(t + 1)[t as int] == tickers[t as int]);
                    assert(book_price_row(
                        row,
                        book,
                        converter,
                        tickers@.take(t + 1)[t as int]@,
                        dates@[d]@,
                    ));
                }
            }
            assert forall|k: int, d: int|
                #![trigger tickers@[k], dates@[d]]
                0 <= k < t + 1 && 0 <= d < dates.len() && book.resolved(
                    tickers[k]@,
                    dates[d]@,
                ).mantissa != 0 implies has_book_price_row(
                rows@,
                book,
                converter,
                tickers[k]@,
                dates[d]@,
            ) by {
                if k < t {
                    assert(has_book_price_row(before, book, converter, tickers[k]@, dates[d]@));
                    let i = choose|i: int|
                        0 <= i < before.len() && book_price_row(
                            #[trigger] before[i],
                            book,
                            converter,
                            tickers[k]@,
                            dates[d]@,
                        );
                    assert(rows[i] == before[i]);
                } else {
                    assert(prices[t as int][d].original@ == book.resolved(name, dates[d]@));
                    assert(series[d].original@.mantissa != 0);
                    assert(crate::valuation::has_price_row(added, name, currency@, dates@, series, d));
                    let i = choose|i: int|
                        0 <= i < added.len() && price_row_of(
                            #[trigger] added[i],
                            name,
                            currency@,
                            dates@,
                            series,
                            d,
                        );
                    assert(rows[before.len() + i] == added[i]);
                    assert(book_price_row(rows[before.len() + i], book, converter, name, dates[d]@));
                }
            }
        }
        t += 1;
    }
    proof {
        assert(tickers@.take(tickers.len() as int) == tickers@);
    }
    rows
}

/// Derives everything from the ledgers and the prices for a run over the
/// dates from `first_date` to `today`: the dates, the price rows, the value of
/// each ticker and of the portfolio on each date, the monthly contributions,
/// and the figures and inputs of the performance rates. The trades are put
/// into the order of their times before they are replayed. Fails when an
/// amount overflows.
pub fn compute_portfolio(
    trades: Vec<TradingRecord>,
    flows: &Vec<CashFlowEvent>,
    tickers: &Vec<String>,
    first_date: Date,
    today: Date,
    book: &PriceBook,
    converter: &CurrencyConverter,
) -> (r: Result<PrecomputedData, ValuationError>)
    ensures
        match r {
            Ok(data) => computed(
                data,
                trades@,
                flows@,
                tickers@,
                first_date@,
                today@,
                book,
                converter,
            ),
            Err(_) => overflows(trades@, flows@, tickers@, first_date@, today@, book, converter),
        },
{
    let dates = date_grid(first_date, today);
    let monthly = match monthly_contributions(&trades, flows) {
        Ok(m) => m,
        Err(e) => {
            return Err(e);
        },
    };
    let sorted = sort_trades(trades);
    proof {
        assert(crate::holdings::ascending(dates@));
    }
    let valuation = match value_portfolio(&sorted, tickers, &dates, book, converter) {
        Ok(v) => v,
        Err(e) => {
            proof {
                let d = choose|d: int|
                    0 <= d < dates.len() && portfolio_value(
                        sorted@,
                        book,
                        converter,
                        tickers@,
                        dates[d]@,
                        tickers.len() as int,
                    ) is None;
                assert(first_date@ <= dates[d]@ <= today@);
            }
            return Err(e);
        },
    };
    if tickers.len() > 0 && dates.len() > usize::MAX / tickers.len() {
        proof {
            assert(dates.len() * tickers.len() > usize::MAX) by (nonlinear_arith)
                requires
                    tickers.len() > 0,
                    dates.len() > usize::MAX / tickers.len(),
            ;
        }
        return Err(ValuationError::Overflow);
    }
    proof {
        if tickers.len() > 0 {
            assert(dates.len() * tickers.len() <= usize::MAX) by (nonlinear_arith)
                requires
                    tickers.len() > 0,
                    dates.len() <= usize::MAX / tickers.len(),
            ;
        } else {
            assert(dates.len() * tickers.len() == 0) by (nonlinear_arith)
                requires
                    tickers.len() == 0,
            ;
        }
    }
    let ticker_prices = all_price_rows(tickers, &dates, &valuation.prices, book, converter);
    let ticker_values = ticker_value_rows(&dates, tickers, &valuation.daily.values);
    let portfolio_values = portfolio_value_rows(&dates, &valuation.daily.totals);
    proof {
        assert(row_totals(portfolio_values@) =~= valuation.daily.totals@);
    }
    let external = external_flows(flows);
    let current_value = if valuation.daily.totals.len() == 0 {
        Amount::zero()
    } else {
        valuation.daily.totals[valuation.daily.totals.len() - 1]
    };
    let stats = match calculate_portfolio_stats(&external, current_value, today) {
        Ok(s) => s,
        Err(e) => {
            proof {
                assert(closing_overflows(
                    dates@,
                    valuation.daily.totals@,
                    sorted@,
                    external@,
                    tickers@,
                    first_date@,
                    today@,
                    book,
                    converter,
                ));
            }
            return Err(e);
        },
    };
    let xirr = xirr_schedule(&external, current_value, today);
    proof {
        assert(crate::valuation::strictly_ascending(dates@));
        lemma_series_of_ascending_dates(dates@, valuation.daily.totals@);
    }
    let twr = match twr_periods(&dates, &valuation.daily.totals, &external, today) {
        Ok(t) => t,
        Err(e) => {
            proof {
                assert(closing_overflows(
                    dates@,
                    valuation.daily.totals@,
                    sorted@,
                    external@,
                    tickers@,
                    first_date@,
                    today@,
                    book,
                    converter,
                ));
            }
            return Err(e);
        },
    };
    Ok(
        PrecomputedData {
            dates,
            ticker_prices,
            ticker_values,
            portfolio_values,
            monthly_contributions: monthly,
            stats,
            xirr,
            twr,
        },
    )
}

} // verus!

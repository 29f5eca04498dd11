//! The derived series as they are stored, and the rule by which a run
//! replaces them: everything stored before is cleared, then the new rows
//! are written.

use vstd::prelude::*;
use crate::background_processor::{computed, PrecomputedData};
use crate::contributions::MonthlyContribution;
use crate::models::{CashFlowEvent, TradingRecord};
use crate::portfolio_stats::PortfolioStats;
use crate::prices::{CurrencyConverter, PriceBook};
use crate::valuation::{
    distinct, has_row, in_grid, laid_out, lemma_grid_is_rectangular, strictly_ascending,
    PortfolioValueRow, TickerPriceRow, TickerValueRow,
};

verus! {

/// The rows of the derived series.
#[derive(Clone, Debug)]
pub struct DerivedSeries {
    pub ticker_prices: Vec<TickerPriceRow>,
    pub ticker_values: Vec<TickerValueRow>,
    pub portfolio_values: Vec<PortfolioValueRow>,
    pub monthly_contributions: Vec<MonthlyContribution>,
    pub stats: Option<PortfolioStats>,
}

/// Whether every dated row of the series lies between two days.
pub open spec fn within(series: DerivedSeries, first: int, last: int) -> bool {
    &&& forall|i: int|
        0 <= i < series.ticker_prices.len() ==> first <= (#[trigger] series.ticker_prices[i]).date@
            <= last
    &&& forall|i: int|
        0 <= i < series.ticker_values.len() ==> first <= (#[trigger] series.ticker_values[i]).date@
            <= last
    &&& forall|i: int|
        0 <= i < series.portfolio_values.len() ==> first <= (
        #[trigger] series.portfolio_values[i]).date@ <= last
}

impl DerivedSeries {
    /// Series without any row.
    pub fn new() -> (r: DerivedSeries)
        ensures
            r.ticker_prices.len() == 0,
            r.ticker_values.len() == 0,
            r.portfolio_values.len() == 0,
            r.monthly_contributions.len() == 0,
            r.stats is None,
    {
        DerivedSeries {
            ticker_prices: Vec::new(),
            ticker_values: Vec::new(),
            portfolio_values: Vec::new(),
            monthly_contributions: Vec::new(),
            stats: None,
        }
    }

    /// Removes every row.
    pub fn clear(&mut self)
        ensures
            final(self).ticker_prices.len() == 0,
            final(self).ticker_values.len() == 0,
            final(self).portfolio_values.len() == 0,
            final(self).monthly_contributions.len() == 0,
            final(self).stats is None,
    {
        self.ticker_prices = Vec::new();
        self.ticker_values = Vec::new();
        self.portfolio_values = Vec::new();
        self.monthly_contributions = Vec::new();
        self.stats = None;
    }

    /// Writes what a run derived beside what is stored. Rows stored before
    /// stay: only a store that was cleared holds nothing but the new rows.
    pub fn write(&mut self, data: PrecomputedData)
        ensures
            final(self).ticker_prices@ == old(self).ticker_prices@ + data.ticker_prices@,
            final(self).ticker_values@ == old(self).ticker_values@ + data.ticker_values@,
            final(self).portfolio_values@ == old(self).portfolio_values@ + data.portfolio_values@,
            final(self).monthly_contributions@ == old(self).monthly_contributions@
                + data.monthly_contributions@,
            final(self).stats == Some(data.stats),
    {
        let PrecomputedData {
            dates: _,
            ticker_prices,
            ticker_values,
            portfolio_values,
            monthly_contributions,
            stats,
            xirr: _,
            twr: _,
        } = data;
        let mut prices = ticker_prices;
        let mut values = ticker_values;
        let mut totals = portfolio_values;
        let mut months = monthly_contributions;
        self.ticker_prices.append(&mut prices);
        self.ticker_values.append(&mut values);
        self.portfolio_values.append(&mut totals);
        self.monthly_contributions.append(&mut months);
        self.stats = Some(stats);
    }

    /// Replaces the series by what a run derived, in the two steps of a
    /// run: what was stored is cleared, then the new rows are written.
    /// Nothing of what was stored before remains.
    pub fn rewrite(&mut self, data: PrecomputedData)
        ensures
            final(self).ticker_prices@ == data.ticker_prices@,
            final(self).ticker_values@ == data.ticker_values@,
            final(self).portfolio_values@ == data.portfolio_values@,
            final(self).monthly_contributions@ == data.monthly_contributions@,
            final(self).stats == Some(data.stats),
    {
        self.clear();
        self.write(data);
        assert(self.ticker_prices@ =~= data.ticker_prices@);
        assert(self.ticker_values@ =~= data.ticker_values@);
        assert(self.portfolio_values@ =~= data.portfolio_values@);
        assert(self.monthly_contributions@ =~= data.monthly_contributions@);
    }
}

/// What a run derived lies within the dates of the run: after a rewrite no
/// row is left outside the range from the first date of the run to its
/// last, whatever was stored before.
pub proof fn lemma_rewrite_leaves_no_row_outside(
    stored: DerivedSeries,
    data: PrecomputedData,
    trades: Seq<TradingRecord>,
    flows: Seq<CashFlowEvent>,
    tickers: Seq<String>,
    first: int,
    today: int,
    book: &PriceBook,
    converter: &CurrencyConverter,
)
    requires
        computed(data, trades, flows, tickers, first, today, book, converter),
        stored.ticker_prices@ == data.ticker_prices@,
        stored.ticker_values@ == data.ticker_values@,
        stored.portfolio_values@ == data.portfolio_values@,
    ensures
        within(stored, first, today),
{
    let dates = data.dates@;
    let n = tickers.len() as int;
    assert forall|i: int| 0 <= i < stored.ticker_prices.len() implies first <= (
    #[trigger] stored.ticker_prices[i]).date@ <= today by {
        let row = data.ticker_prices[i];
        assert(stored.ticker_prices[i] == row);
        assert(crate::background_processor::is_book_price_row(
            row,
            book,
            converter,
            tickers.take(n),
            dates,
        ));
        let (t, d) = choose|t: int, d: int|
            #![trigger tickers.take(n)[t], dates[d]]
            0 <= t < tickers.take(n).len() && 0 <= d < dates.len()
                && crate::background_processor::book_price_row(
                row,
                book,
                converter,
                tickers.take(n)[t]@,
                dates[d]@,
            );
        assert(dates[d]@ == first + d);
    }
    assert forall|i: int| 0 <= i < stored.ticker_values.len() implies first <= (
    #[trigger] stored.ticker_values[i]).date@ <= today by {
        assert(stored.ticker_values[i] == data.ticker_values[i]);
        crate::valuation::lemma_cell_of_index(i, dates.len() as int, n);
        let d = i / n;
        let t = i % n;
        assert(data.ticker_values[d * n + t].date == dates[d]);
        assert(dates[d]@ == first + d);
    }
    assert forall|i: int| 0 <= i < stored.portfolio_values.len() implies first <= (
    #[trigger] stored.portfolio_values[i]).date@ <= today by {
        assert(stored.portfolio_values[i] == data.portfolio_values[i]);
        assert(data.portfolio_values[i].date == dates[i]);
        assert(dates[i]@ == first + i);
    }
}

/// After a run every ticker has one value row, and one only, for each date
/// from the first date of the run to its last, and there is no other value
/// row.
pub proof fn lemma_every_ticker_valued_on_every_date(
    data: PrecomputedData,
    trades: Seq<TradingRecord>,
    flows: Seq<CashFlowEvent>,
    tickers: Seq<String>,
    first: int,
    today: int,
    book: &PriceBook,
    converter: &CurrencyConverter,
)
    requires
        computed(data, trades, flows, tickers, first, today, book, converter),
        distinct(tickers),
    ensures
        forall|day: int, t: int|
            first <= day <= today && 0 <= t < tickers.len() ==> #[trigger] has_row(
                data.ticker_values@,
                day,
                tickers[t]@,
            ),
        forall|i: int|
            0 <= i < data.ticker_values.len() ==> in_grid(
                #[trigger] data.ticker_values[i],
                data.dates@,
                tickers,
            ),
        forall|i: int, j: int|
            0 <= i < data.ticker_values.len() && 0 <= j < data.ticker_values.len() && (
            #[trigger] data.ticker_values[i]).date@ == (#[trigger] data.ticker_values[j]).date@
                && data.ticker_values[i].ticker@ == data.ticker_values[j].ticker@ ==> i == j,
{
    let dates = data.dates@;
    let rows = data.ticker_values@;
    assert(laid_out(rows, dates, tickers));
    assert(strictly_ascending(dates)) by {
        assert forall|i: int, j: int| 0 <= i < j < dates.len() implies dates[i]@ < dates[j]@ by {
            assert(dates[i]@ == first + i);
            assert(dates[j]@ == first + j);
        }
    }
    lemma_grid_is_rectangular(rows, dates, tickers);
    assert forall|day: int, t: int|
        first <= day <= today && 0 <= t < tickers.len() implies #[trigger] has_row(
        rows,
        day,
        tickers[t]@,
    ) by {
        let d = day - first;
        assert(dates[d]@ == day);
        assert(has_row(rows, dates[d]@, tickers[t]@));
    }
}

} // verus!

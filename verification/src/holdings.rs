//! Daily holdings, replayed from the trade ledger.
//!
//! The holding of a ticker on a day is what remains after every trade up to
//! and including that day has been applied in ledger order: purchases and
//! reinvested dividends add their quantity, sales take it away, anything else
//! leaves the holding alone.

use vstd::prelude::*;
use crate::date::{seconds_of, valid_day, Date, SECONDS_PER_DAY};
use crate::decimal::{accumulate, deduct, zero_value, Amount, DecimalValue};
use crate::models::{TradingRecord, TransactionKind};
use crate::sorting::{lemma_sorted_items, sort_by_keys, sorted_items};
use crate::text::same_text;

verus! {

/// An amount left the range that a decimal can hold.
#[derive(Clone, Copy, Debug, PartialEq, Eq, Structural)]
pub enum ValuationError {
    Overflow,
}

/// A holding after one trade: changed only by a trade in the same ticker.
pub open spec fn apply_trade(
    balance: Option<DecimalValue>,
    trade: TradingRecord,
    ticker: Seq<char>,
) -> Option<DecimalValue> {
    if trade.is_for(ticker) {
        match trade.kind() {
            TransactionKind::Buy => accumulate(balance, trade.quantity@),
            TransactionKind::DividendReinvestment => accumulate(balance, trade.quantity@),
            TransactionKind::Sell => deduct(balance, trade.quantity@),
            TransactionKind::Other => balance,
        }
    } else {
        balance
    }
}

/// The holding of a ticker after all the trades, applied in their order.
/// `None` when a holding overflowed on the way.
pub open spec fn replayed(trades: Seq<TradingRecord>, ticker: Seq<char>) -> Option<DecimalValue>
    decreases trades.len(),
{
    if trades.len() == 0 {
        Some(zero_value())
    } else {
        apply_trade(replayed(trades.drop_last(), ticker), trades.last(), ticker)
    }
}

/// The holding of a ticker on a day: the trades of later days left out.
pub open spec fn holdings_on(trades: Seq<TradingRecord>, day: int, ticker: Seq<char>) -> Option<
    DecimalValue,
>
    decreases trades.len(),
{
    if trades.len() == 0 {
        Some(zero_value())
    } else if trades.last().trade_day() <= day {
        apply_trade(holdings_on(trades.drop_last(), day, ticker), trades.last(), ticker)
    } else {
        holdings_on(trades.drop_last(), day, ticker)
    }
}

/// Whether the trades stand in the order of their days.
pub open spec fn sorted_by_day(trades: Seq<TradingRecord>) -> bool {
    forall|i: int, j: int|
        0 <= i <= j < trades.len() ==> trades[i].trade_day() <= trades[j].trade_day()
}

/// Whether the dates stand in ascending order.
pub open spec fn ascending(dates: Seq<Date>) -> bool {
    forall|i: int, j: int| 0 <= i <= j < dates.len() ==> dates[i]@ <= dates[j]@
}

/// Where every trade is of the day or earlier, the holding on the day is the
/// holding after all the trades.
pub proof fn lemma_all_applied(trades: Seq<TradingRecord>, day: int, ticker: Seq<char>)
    requires
        forall|i: int| 0 <= i < trades.len() ==> trades[i].trade_day() <= day,
    ensures
        holdings_on(trades, day, ticker) == replayed(trades, ticker),
    decreases trades.len(),
{
    if trades.len() > 0 {
        lemma_all_applied(trades.drop_last(), day, ticker);
    }
}

/// Where the first `count` trades are of the day or earlier and all others
/// are later, the holding on the day is the holding after the first `count`.
pub proof fn lemma_holdings_split(
    trades: Seq<TradingRecord>,
    count: int,
    day: int,
    ticker: Seq<char>,
)
    requires
        0 <= count <= trades.len(),
        forall|i: int| 0 <= i < count ==> trades[i].trade_day() <= day,
        forall|i: int| count <= i < trades.len() ==> trades[i].trade_day() > day,
    ensures
        holdings_on(trades, day, ticker) == replayed(trades.take(count), ticker),
    decreases trades.len(),
{
    if trades.len() == count {
        assert(trades.take(count) == trades);
        lemma_all_applied(trades, day, ticker);
    } else {
        assert(trades.drop_last().take(count) == trades.take(count));
        lemma_holdings_split(trades.drop_last(), count, day, ticker);
    }
}

/// Nothing is held before the first trade: on a day that comes before
/// every trade in a ticker, the holding of that ticker is zero.
pub proof fn lemma_nothing_held_before_first_trade(
    trades: Seq<TradingRecord>,
    day: int,
    ticker: Seq<char>,
)
    requires
        forall|i: int|
            0 <= i < trades.len() && (#[trigger] trades[i]).is_for(ticker) ==> trades[i].trade_day()
                > day,
    ensures
        holdings_on(trades, day, ticker) == Some(zero_value()),
    decreases trades.len(),
{
    if trades.len() > 0 {
        let rest = trades.drop_last();
        assert forall|i: int| 0 <= i < rest.len() && (#[trigger] rest[i]).is_for(ticker) implies rest[i].trade_day()
            > day by {
            assert(rest[i] == trades[i]);
        }
        lemma_nothing_held_before_first_trade(rest, day, ticker);
        assert(trades.last() == trades[trades.len() - 1]);
    }
}

/// A holding that has overflowed stays overflowed, whatever trades follow.
pub proof fn lemma_overflow_stays(
    trades: Seq<TradingRecord>,
    count: int,
    day: int,
    ticker: Seq<char>,
)
    requires
        0 <= count <= trades.len(),
        holdings_on(trades.take(count), day, ticker) is None,
    ensures
        holdings_on(trades, day, ticker) is None,
    decreases trades.len(),
{
    if trades.len() == count {
        assert(trades.take(count) == trades);
    } else {
        assert(trades.drop_last().take(count) == trades.take(count));
        lemma_overflow_stays(trades.drop_last(), count, day, ticker);
    }
}

/// The time of each trade, in seconds, by which the trades are ordered.
pub open spec fn time_keys(trades: Seq<TradingRecord>) -> Seq<i64> {
    trades.map_values(|t: TradingRecord| seconds_of(t.trade_date_time@) as i64)
}

/// The trades in the order of their times, trades of one time in ledger order.
pub open spec fn in_time_order(trades: Seq<TradingRecord>) -> Seq<TradingRecord> {
    sorted_items(trades, time_keys(trades))
}

/// Sorts the trades by the time they were made. Trades made at the same
/// time keep their order.
pub fn sort_trades(trades: Vec<TradingRecord>) -> (r: Vec<TradingRecord>)
    ensures
        r@ == in_time_order(trades@),
        r@.to_multiset() == trades@.to_multiset(),
        r.len() == trades.len(),
        sorted_by_day(r@),
{
    let mut keys: Vec<i64> = Vec::new();
    let mut i: usize = 0;
    while i < trades.len()
        invariant
            i <= trades.len(),
            keys.len() == i,
            forall|k: int|
                0 <= k < i ==> (#[trigger] keys[k]) == seconds_of(trades[k].trade_date_time@),
            forall|k: int|
                0 <= k < i ==> valid_day((#[trigger] trades[k]).trade_date_time@.day) && 0
                    <= trades[k].trade_date_time@.second < SECONDS_PER_DAY,
        decreases trades.len() - i,
    {
        keys.push(trades[i].trade_date_time.seconds());
        i += 1;
    }
    let ghost unsorted = trades@;
    proof {
        assert(keys@ =~= time_keys(unsorted));
    }
    let (sorted, sorted_keys) = sort_by_keys(trades, keys);
    proof {
        let key_of = |t: TradingRecord| seconds_of(t.trade_date_time@) as i64;
        lemma_sorted_items(unsorted, time_keys(unsorted), key_of);
        assert forall|a: int, b: int| 0 <= a <= b < sorted.len() implies sorted[a].trade_day()
            <= sorted[b].trade_day() by {
            broadcast use vstd::seq_lib::group_to_multiset_ensures;

            assert(key_of(sorted[a]) <= key_of(sorted[b]));
            assert(sorted@.contains(sorted[a]));
            assert(unsorted.to_multiset().count(sorted[a]) > 0);
            assert(unsorted.contains(sorted[a]));
            assert(sorted@.contains(sorted[b]));
            assert(unsorted.to_multiset().count(sorted[b]) > 0);
            assert(unsorted.contains(sorted[b]));
            let ja = choose|j: int| 0 <= j < unsorted.len() && unsorted[j] == sorted[a];
            let jb = choose|j: int| 0 <= j < unsorted.len() && unsorted[j] == sorted[b];
            assert(valid_day(unsorted[ja].trade_date_time@.day));
            assert(valid_day(unsorted[jb].trade_date_time@.day));
        }
    }
    sorted
}

/// The holding after one more trade.
fn apply_to_balance(balance: Amount, trade: &TradingRecord, ticker: &str) -> (r: Option<Amount>)
    ensures
        crate::decimal::value_of(r) == apply_trade(Some(balance@), *trade, ticker@),
{
    let for_ticker = match &trade.ticker {
        Some(t) => same_text(t.as_str(), ticker),
        None => false,
    };
    if !for_ticker {
        return Some(balance);
    }
    match trade.transaction_kind() {
        TransactionKind::Buy => balance.checked_add(trade.quantity),
        TransactionKind::DividendReinvestment => balance.checked_add(trade.quantity),
        TransactionKind::Sell => balance.checked_sub(trade.quantity),
        TransactionKind::Other => Some(balance),
    }
}

/// A copy of the amounts.
fn copy_amounts(amounts: &Vec<Amount>) -> (r: Vec<Amount>)
    ensures
        r@ == amounts@,
{
    let mut out: Vec<Amount> = Vec::new();
    let mut i: usize = 0;
    while i < amounts.len()
        invariant
            i <= amounts.len(),
            out@ == amounts@.take(i as int),
        decreases amounts.len() - i,
    {
        out.push(amounts[i]);
        assert(amounts@.take(i + 1) == amounts@.take(i as int).push(amounts@[i as int]));
        i += 1;
    }
    assert(amounts@.take(amounts.len() as int) == amounts@);
    out
}

/// Replays the trades over the dates with one pass: row `d` of the result
/// holds, ticker by ticker, the holding on `dates[d]`. The trades must stand
/// in the order of their days and the dates in ascending order. Fails when a
/// holding overflows.
pub fn simulate_holdings(trades: &Vec<TradingRecord>, tickers: &Vec<String>, dates: &Vec<Date>) -> (r:
    Result<Vec<Vec<Amount>>, ValuationError>)
    requires
        sorted_by_day(trades@),
        ascending(dates@),
    ensures
        match r {
            Ok(rows) => {
                &&& rows.len() == dates.len()
                &&& forall|d: int| 0 <= d < rows.len() ==> (#[trigger] rows[d]).len() == tickers.len()
                &&& forall|d: int, t: int|
                    0 <= d < dates.len() && 0 <= t < tickers.len() ==> Some(
                        #[trigger] rows[d][t]@,
                    ) == holdings_on(trades@, dates[d]@, tickers[t]@)
            },
            Err(_) => exists|d: int, t: int|
                0 <= d < dates.len() && 0 <= t < tickers.len() && holdings_on(
                    trades@,
                    dates[d]@,
                    tickers[t]@,
                ) is None,
        },
{
    let mut balances: Vec<Amount> = Vec::new();
    let mut t: usize = 0;
    while t < tickers.len()
        invariant
            t <= tickers.len(),
            balances.len() == t,
            forall|k: int| 0 <= k < t ==> (#[trigger] balances[k])@ == zero_value(),
        decreases tickers.len() - t,
    {
        balances.push(Amount::zero());
        t += 1;
    }
    assert(trades@.take(0).len() == 0);
    let mut rows: Vec<Vec<Amount>> = Vec::new();
    let mut next: usize = 0;
    let mut d: usize = 0;
    while d < dates.len()
        invariant
            d <= dates.len(),
            next <= trades.len(),
            sorted_by_day(trades@),
            ascending(dates@),
            balances.len() == tickers.len(),
            rows.len() == d,
            forall|k: int|
                0 <= k < tickers.len() ==> Some((#[trigger] balances[k])@) == replayed(
                    trades@.take(next as int),
                    tickers[k]@,
                ),
            forall|i: int| 0 <= i < next && d < dates.len() ==> trades[i].trade_day() <= dates[d as int]@,
            forall|e: int| 0 <= e < d ==> (#[trigger] rows[e]).len() == tickers.len(),
            forall|e: int, k: int|
                0 <= e < d && 0 <= k < tickers.len() ==> Some(#[trigger] rows[e][k]@) == holdings_on(
                    trades@,
                    dates[e]@,
                    tickers[k]@,
                ),
        decreases dates.len() - d,
    {
        let date = dates[d];
        while next < trades.len() && trades[next].trade_date_time.date().le(date)
            invariant
                d < dates.len(),
                date == dates[d as int],
                next <= trades.len(),
                sorted_by_day(trades@),
                balances.len() == tickers.len(),
                forall|k: int|
                    0 <= k < tickers.len() ==> Some((#[trigger] balances[k])@) == replayed(
                        trades@.take(next as int),
                        tickers[k]@,
                    ),
                forall|i: int| 0 <= i < next ==> trades[i].trade_day() <= dates[d as int]@,
            decreases trades.len() - next,
        {
            let ghost before = trades@.take(next as int);
            let ghost after = trades@.take(next + 1);
            proof {
                assert(after.drop_last() == before);
                assert(after.last() == trades[next as int]);
            }
            let mut k: usize = 0;
            while k < tickers.len()
                invariant
                    k <= tickers.len(),
                    next < trades.len(),
                    d < dates.len(),
                    trades[next as int].trade_day() <= dates[d as int]@,
                    before == trades@.take(next as int),
                    after == trades@.take(next + 1),
                    after.drop_last() == before,
                    after.last() == trades[next as int],
                    balances.len() == tickers.len(),
                    forall|i: int| 0 <= i < next ==> trades[i].trade_day() <= dates[d as int]@,
                    forall|j: int|
                        0 <= j < k ==> Some((#[trigger] balances[j])@) == replayed(
                            after,
                            tickers[j]@,
                        ),
                    forall|j: int|
                        k <= j < tickers.len() ==> Some((#[trigger] balances[j])@) == replayed(
                            before,
                            tickers[j]@,
                        ),
                decreases tickers.len() - k,
            {
                match apply_to_balance(balances[k], &trades[next], tickers[k].as_str()) {
                    Some(b) => {
                        balances.set(k, b);
                    },
                    None => {
                        proof {
                            let day = dates[d as int]@;
                            let name = tickers[k as int]@;
                            assert(replayed(after, name) is None);
                            assert forall|i: int| 0 <= i < after.len() implies after[i].trade_day()
                                <= day by {
                                assert(after[i] == trades[i]);
                            }
                            lemma_all_applied(after, day, name);
                            lemma_overflow_stays(trades@, next + 1, day, name);
                        }
                        return Err(ValuationError::Overflow);
                    },
                }
                k += 1;
            }
            next += 1;
        }
        proof {
            let day = dates[d as int]@;
            assert forall|i: int| next <= i < trades.len() implies trades[i].trade_day() > day by {
                assert(trades[next as int].trade_day() <= trades[i].trade_day());
            }
            assert forall|k: int| 0 <= k < tickers.len() implies Some((#[trigger] balances[k])@)
                == holdings_on(trades@, day, tickers[k]@) by {
                lemma_holdings_split(trades@, next as int, day, tickers[k]@);
            }
        }
        let row = copy_amounts(&balances);
        rows.push(row);
        proof {
            if d + 1 < dates.len() {
                assert(dates[d as int]@ <= dates[d + 1]@);
            }
        }
        d += 1;
    }
    Ok(rows)
}

} // verus!

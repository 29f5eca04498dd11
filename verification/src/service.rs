//! The decisions of the service around a run: what to write into the log of
//! runs, whether the derived series are due for a refresh, which database a
//! connection string names, and how the portfolio is allocated today.

use vstd::prelude::*;
use crate::date::{day_text, Date};
use crate::decimal::{
    accumulate, product_of, quotient_of, rounded_to, whole_value, zero_value, Amount, DecimalValue,
};
use crate::rebalance::{TickerAmount, REPORTED_PLACES};
use crate::run::RunStatus;
use crate::text::{chars_of, contains, contains_text, same_text, text_from_chars};

verus! {

/// The database that is used where a connection string names none.
pub const DEFAULT_DATABASE: &'static str = "bot_db";

/// What is written into the log of runs.
#[derive(Clone, Debug)]
pub enum StatusWrite {
    /// A new record with the status and the time the run started.
    InsertStarted { total_tickers: Option<usize> },
    /// The latest record takes the status; it takes the time of completion
    /// if the run completed, else the error if there is one.
    UpdateLatest { completed: bool, last_error: Option<String> },
    /// A new record with the status, the time of completion and the error
    /// if there is one: the log held no record to update.
    InsertFinished { last_error: Option<String> },
}

/// One ticker's part of the portfolio.
#[derive(Clone, Debug)]
pub struct AllocationRow {
    pub ticker: String,
    pub current_value: Amount,
    pub current_allocation_pct: Amount,
}

/// A part of the portfolio, as plain values.
pub struct AllocationValue {
    pub ticker: Seq<char>,
    pub current_value: DecimalValue,
    pub current_allocation_pct: DecimalValue,
}

/// The word under which a status is stored.
pub open spec fn status_word(status: RunStatus) -> Seq<char> {
    match status {
        RunStatus::NotStarted => "not_started"@,
        RunStatus::InProgress => "in_progress"@,
        RunStatus::Completed => "completed"@,
        RunStatus::Failed => "failed"@,
    }
}

/// The characters of an optional text.
pub open spec fn optional_text(text: Option<&str>) -> Option<Seq<char>> {
    match text {
        Some(t) => Some(t@),
        None => None,
    }
}

/// The time at which the latest run was last heard of: the time it
/// completed if the record has that field, be it empty, else the time it
/// started; empty where there is neither.
pub open spec fn last_heard(
    has_completed_field: bool,
    completed_at: Option<Seq<char>>,
    started_at: Option<Seq<char>>,
) -> Seq<char> {
    if has_completed_field {
        match completed_at {
            Some(t) => t,
            None => Seq::empty(),
        }
    } else {
        match started_at {
            Some(t) => t,
            None => Seq::empty(),
        }
    }
}

/// Whether the derived series are due for a refresh: the latest run was not
/// heard of today, and no run is in progress.
pub open spec fn due(status: Option<Seq<char>>, heard: Seq<char>, today: int) -> bool {
    !(heard.len() > 0 && contains_text(heard, day_text(today))) && status != Some("in_progress"@)
}

/// The position behind the last `mark` in the text, 0 where there is none.
pub open spec fn after_last(text: Seq<char>, mark: char) -> int
    decreases text.len(),
{
    if text.len() == 0 {
        0
    } else if text.last() == mark {
        text.len() as int
    } else {
        after_last(text.drop_last(), mark)
    }
}

/// The position of the first `mark` in the text from `from` on, the length
/// of the text where there is none.
pub open spec fn first_from(text: Seq<char>, mark: char, from: int) -> int
    decreases text.len() - from,
{
    if from < 0 || from >= text.len() {
        text.len() as int
    } else if text[from] == mark {
        from
    } else {
        first_from(text, mark, from + 1)
    }
}

/// The database that a connection string names: what follows its last
/// slash, up to a question mark; the default where nothing follows the slash.
pub open spec fn named_database(uri: Seq<char>) -> Seq<char> {
    let start = after_last(uri, '/');
    if start == uri.len() {
        DEFAULT_DATABASE@
    } else {
        uri.subrange(start, first_from(uri, '?', start))
    }
}

/// The sum of the first `count` amounts, `None` on overflow.
pub open spec fn total_of(values: Seq<TickerAmount>, count: int) -> Option<DecimalValue>
    decreases count,
{
    if count <= 0 {
        Some(zero_value())
    } else {
        accumulate(total_of(values, count - 1), values[count - 1].amount@)
    }
}

/// A value as a percentage of a total, `None` on overflow.
pub open spec fn percentage(value: DecimalValue, total: DecimalValue) -> Option<DecimalValue> {
    match quotient_of(value, total) {
        Some(share) => product_of(share, whole_value(100)),
        None => None,
    }
}

/// The rows of the first `count` values: a row for each value that is
/// still positive when rounded. `None` on overflow.
pub open spec fn allocated(values: Seq<TickerAmount>, total: DecimalValue, count: int) -> Option<
    Seq<AllocationValue>,
>
    decreases count,
{
    if count <= 0 {
        Some(Seq::empty())
    } else {
        match allocated(values, total, count - 1) {
            None => None,
            Some(earlier) => {
                let entry = values[count - 1];
                let shown = rounded_to(entry.amount@, REPORTED_PLACES as int);
                if shown.mantissa > 0 {
                    match percentage(entry.amount@, total) {
                        None => None,
                        Some(pct) => Some(
                            earlier.push(
                                AllocationValue {
                                    ticker: entry.ticker@,
                                    current_value: shown,
                                    current_allocation_pct: rounded_to(pct, REPORTED_PLACES as int),
                                },
                            ),
                        ),
                    }
                } else {
                    Some(earlier)
                }
            },
        }
    }
}

/// The allocation of a portfolio: no row where the portfolio is worth nothing.
pub open spec fn allocation_of(values: Seq<TickerAmount>) -> Option<Seq<AllocationValue>> {
    match total_of(values, values.len() as int) {
        None => None,
        Some(total) => if total.mantissa == 0 {
            Some(Seq::empty())
        } else {
            allocated(values, total, values.len() as int)
        },
    }
}

/// What a row says, as plain values.
pub open spec fn allocation_value(row: AllocationRow) -> AllocationValue {
    AllocationValue {
        ticker: row.ticker@,
        current_value: row.current_value@,
        current_allocation_pct: row.current_allocation_pct@,
    }
}

/// What optional rows say, as plain values.
pub open spec fn allocation_values(rows: Option<Vec<AllocationRow>>) -> Option<Seq<AllocationValue>> {
    match rows {
        Some(r) => Some(r@.map_values(|row: AllocationRow| allocation_value(row))),
        None => None,
    }
}

impl RunStatus {
    /// The word under which the status is stored.
    pub fn as_text(&self) -> (r: &'static str)
        ensures
            r@ == status_word(*self),
    {
        match self {
            RunStatus::NotStarted => "not_started",
            RunStatus::InProgress => "in_progress",
            RunStatus::Completed => "completed",
            RunStatus::Failed => "failed",
        }
    }

    /// The status that a stored word stands for, if it is one of the four.
    pub fn from_text(word: &str) -> (r: Option<RunStatus>)
        ensures
            match r {
                Some(s) => word@ == status_word(s),
                None => forall|s: RunStatus| word@ != status_word(s),
            },
    {
        if same_text(word, "not_started") {
            Some(RunStatus::NotStarted)
        } else if same_text(word, "in_progress") {
            Some(RunStatus::InProgress)
        } else if same_text(word, "completed") {
            Some(RunStatus::Completed)
        } else if same_text(word, "failed") {
            Some(RunStatus::Failed)
        } else {
            None
        }
    }
}

/// What is to be written into the log of runs for a status. A run that
/// starts gets a record of its own. Any other status goes to the latest
/// record; only where the log is empty a record is made for it.
pub fn status_write(
    status: RunStatus,
    latest_exists: bool,
    total_tickers: Option<usize>,
    error: Option<&str>,
) -> (r: StatusWrite)
    ensures
        status == RunStatus::InProgress ==> r is InsertStarted && r->total_tickers == total_tickers,
        status != RunStatus::InProgress && latest_exists ==> r is UpdateLatest && r->completed == (status
            == RunStatus::Completed) && crate::security_parser::text_of(r->UpdateLatest_last_error)
            == if status == RunStatus::Completed {
            None
        } else {
            optional_text(error)
        },
        status != RunStatus::InProgress && !latest_exists ==> r is InsertFinished
            && crate::security_parser::text_of(r->InsertFinished_last_error) == optional_text(error),
{
    match status {
        RunStatus::InProgress => StatusWrite::InsertStarted { total_tickers },
        _ => {
            let message = match error {
                Some(e) => Some(e.to_owned()),
                None => None,
            };
            if latest_exists {
                match status {
                    RunStatus::Completed => StatusWrite::UpdateLatest { completed: true, last_error: None },
                    _ => StatusWrite::UpdateLatest { completed: false, last_error: message },
                }
            } else {
                StatusWrite::InsertFinished { last_error: message }
            }
        },
    }
}

/// Whether the derived series are due for a refresh, given what the log of
/// runs says of the latest run.
pub fn refresh_due(
    status: Option<&str>,
    has_completed_field: bool,
    completed_at: Option<&str>,
    started_at: Option<&str>,
    today: Date,
) -> (r: bool)
    ensures
        r == due(
            optional_text(status),
            last_heard(has_completed_field, optional_text(completed_at), optional_text(started_at)),
            today@,
        ),
{
    let heard: &str = if has_completed_field {
        match completed_at {
            Some(t) => t,
            None => "",
        }
    } else {
        match started_at {
            Some(t) => t,
            None => "",
        }
    };
    proof {
        reveal_strlit("");
        assert(""@ =~= Seq::<char>::empty());
    }
    let today_text = today.iso_text();
    let up_to_date = !heard.is_empty() && contains(heard, today_text.as_str());
    let running = match status {
        Some(s) => same_text(s, "in_progress"),
        None => false,
    };
    !up_to_date && !running
}

/// The database that a connection string names.
pub fn database_name(uri: &str) -> (r: String)
    ensures
        r@ == named_database(uri@),
{
    let all = chars_of(uri);
    let mut start: usize = 0;
    let mut i: usize = 0;
    assert(all@.take(0) =~= Seq::empty());
    while i < all.len()
        invariant
            i <= all.len(),
            start <= i,
            start == after_last(all@.take(i as int), '/'),
        decreases all.len() - i,
    {
        proof {
            assert(all@.take(i + 1).drop_last() == all@.take(i as int));
            assert(all@.take(i + 1).last() == all[i as int]);
        }
        if all[i] == '/' {
            start = i + 1;
        }
        i += 1;
    }
    proof {
        assert(all@.take(all.len() as int) == all@);
    }
    if start == all.len() {
        return DEFAULT_DATABASE.to_owned();
    }
    let mut end: usize = start;
    while end < all.len() && all[end] != '?'
        invariant
            start <= end <= all.len(),
            first_from(all@, '?', start as int) == first_from(all@, '?', end as int),
        decreases all.len() - end,
    {
        end += 1;
    }
    let mut name: Vec<char> = Vec::new();
    let mut k: usize = start;
    while k < end
        invariant
            start <= k <= end <= all.len(),
            name@ == all@.subrange(start as int, k as int),
        decreases end - k,
    {
        name.push(all[k]);
        assert(all@.subrange(start as int, k + 1) == all@.subrange(start as int, k as int).push(all[k as int]));
        k += 1;
    }
    text_from_chars(&name)
}

/// How the portfolio is allocated: for each ticker whose value is still
/// positive when rounded to two places, the rounded value and its rounded
/// percentage of the total. `None` where an amount overflows.
pub fn current_allocations(values: &Vec<TickerAmount>) -> (r: Option<Vec<AllocationRow>>)
    ensures
        allocation_values(r) == allocation_of(values@),
{
    let n = values.len();
    let mut total = Amount::zero();
    let mut i: usize = 0;
    while i < n
        invariant
            i <= n,
            n == values.len(),
            Some(total@) == total_of(values@, i as int),
        decreases n - i,
    {
        total = match total.checked_add(values[i].amount) {
            Some(t) => t,
            None => {
                proof {
                    lemma_total_overflow_stays(values@, i + 1, n as int);
                }
                return None;
            },
        };
        i += 1;
    }
    let mut rows: Vec<AllocationRow> = Vec::new();
    proof {
        assert(rows@.map_values(|row: AllocationRow| allocation_value(row)) =~= Seq::empty());
    }
    if total.is_zero() {
        return Some(rows);
    }
    i = 0;
    while i < n
        invariant
            i <= n,
            n == values.len(),
            Some(total@) == total_of(values@, n as int),
            total@.mantissa != 0,
            allocated(values@, total@, i as int) == Some(
                rows@.map_values(|row: AllocationRow| allocation_value(row)),
            ),
        decreases n - i,
    {
        let ghost before = rows@;
        let shown = values[i].amount.round_dp(REPORTED_PLACES);
        if shown.is_positive() {
            let pct = match values[i].amount.checked_div(total) {
                Some(share) => share.checked_mul(Amount::from_int(100)),
                None => None,
            };
            match pct {
                Some(p) => {
                    let row = AllocationRow {
                        ticker: values[i].ticker.clone(),
                        current_value: shown,
                        current_allocation_pct: p.round_dp(REPORTED_PLACES),
                    };
                    rows.push(row);
                    proof {
                        assert(rows@.map_values(|row: AllocationRow| allocation_value(row))
                            =~= before.map_values(|row: AllocationRow| allocation_value(row)).push(
                            allocation_value(row),
                        ));
                    }
                },
                None => {
                    proof {
                        lemma_allocated_overflow_stays(values@, total@, i + 1, n as int);
                    }
                    return None;
                },
            }
        }
        i += 1;
    }
    Some(rows)
}

/// A total that has overflowed stays overflowed.
proof fn lemma_total_overflow_stays(values: Seq<TickerAmount>, count: int, more: int)
    requires
        0 <= count <= more,
        total_of(values, count) is None,
    ensures
        total_of(values, more) is None,
    decreases more - count,
{
    if count < more {
        lemma_total_overflow_stays(values, count, more - 1);
    }
}

/// An allocation that has overflowed stays overflowed.
proof fn lemma_allocated_overflow_stays(
    values: Seq<TickerAmount>,
    total: DecimalValue,
    count: int,
    more: int,
)
    requires
        0 <= count <= more,
        allocated(values, total, count) is None,
    ensures
        allocated(values, total, more) is None,
    decreases more - count,
{
    if count < more {
        lemma_allocated_overflow_stays(values, total, count, more - 1);
    }
}

} // verus!

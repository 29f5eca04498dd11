//! The figures of a portfolio's performance that are exact decimals, and the
//! inputs of the two rates of return.
//!
//! The money-weighted rate is the root of a polynomial in floating point and
//! the time-weighted rate a product of floating-point ratios; what is decided
//! and computed before that point stands here: which cash flows enter, in
//! what order and at what distance in days, whether a root is to be looked
//! for at all, between which dates a sub-period runs and by how much the
//! portfolio grew in it.

use vstd::prelude::*;
use crate::date::{valid_day, Date};
use crate::decimal::{
    accumulate, difference_of, magnitude, negated, quotient_of, sum_of, zero_value, Amount,
    DecimalValue,
};
use crate::holdings::ValuationError;
use crate::models::CashFlowEvent;
use crate::sorting::{lemma_sorted_items_map, sort_by_keys, sorted_items, sorted_keys};
use crate::valuation::strictly_ascending;

verus! {

/// What was paid in and taken out, what the portfolio is worth and what it
/// has earned.
#[derive(Clone, Copy, Debug)]
pub struct PortfolioStats {
    pub total_invested: Amount,
    pub total_withdrawn: Amount,
    pub current_value: Amount,
    pub profit_loss: Amount,
    pub return_percentage: Amount,
    pub calc_date: Date,
}

/// The figures of a [`PortfolioStats`], as plain values.
pub struct SummaryValue {
    pub total_invested: DecimalValue,
    pub total_withdrawn: DecimalValue,
    pub profit_loss: DecimalValue,
    pub return_percentage: DecimalValue,
}

/// The cash flows of the money-weighted rate of return, in the order of
/// their dates.
#[derive(Clone, Debug)]
pub struct XirrSchedule {
    /// Days from the first cash flow to each cash flow.
    pub day_offsets: Vec<i64>,
    /// The cash flows as the investor sees them: paid in negative, value held positive.
    pub amounts: Vec<Amount>,
}

/// The sub-periods of the time-weighted rate of return.
#[derive(Clone, Debug)]
pub struct TwrPeriods {
    /// By how much the portfolio grew in each sub-period that began with a value.
    pub factors: Vec<Amount>,
    /// How many break dates have a recorded value.
    pub break_count: usize,
    /// Days from the first valued date to the date of the calculation.
    pub elapsed_days: i64,
}

/// Where a scan of the valued dates stands.
pub struct TwrState {
    pub last_break: Option<int>,
    pub factors: Seq<DecimalValue>,
    pub break_count: int,
}

/// The sum of the flows into the portfolio, `None` on overflow.
pub open spec fn invested(flows: Seq<CashFlowEvent>) -> Option<DecimalValue>
    decreases flows.len(),
{
    if flows.len() == 0 {
        Some(zero_value())
    } else if flows.last().amount@.mantissa > 0 {
        accumulate(invested(flows.drop_last()), flows.last().amount@)
    } else {
        invested(flows.drop_last())
    }
}

/// The sum of the magnitudes of the flows out of the portfolio, `None` on overflow.
pub open spec fn withdrawn(flows: Seq<CashFlowEvent>) -> Option<DecimalValue>
    decreases flows.len(),
{
    if flows.len() == 0 {
        Some(zero_value())
    } else if flows.last().amount@.mantissa > 0 {
        withdrawn(flows.drop_last())
    } else {
        accumulate(withdrawn(flows.drop_last()), magnitude(flows.last().amount@))
    }
}

/// The figures that follow from sums paid in and taken out and from the
/// current value: the profit is value plus withdrawals less investments, the
/// return is the profit over the investments, zero where nothing was invested.
pub open spec fn figures(paid_in: DecimalValue, taken_out: DecimalValue, current: DecimalValue) -> Option<
    SummaryValue,
> {
    match sum_of(current, taken_out) {
        None => None,
        Some(gross) => match difference_of(gross, paid_in) {
            None => None,
            Some(profit) => if paid_in.mantissa == 0 {
                Some(
                    SummaryValue {
                        total_invested: paid_in,
                        total_withdrawn: taken_out,
                        profit_loss: profit,
                        return_percentage: zero_value(),
                    },
                )
            } else {
                match quotient_of(profit, paid_in) {
                    None => None,
                    Some(ratio) => Some(
                        SummaryValue {
                            total_invested: paid_in,
                            total_withdrawn: taken_out,
                            profit_loss: profit,
                            return_percentage: ratio,
                        },
                    ),
                }
            },
        },
    }
}

/// The figures of a ledger of cash flows and a current value, `None` when
/// one of them overflows.
pub open spec fn summary(flows: Seq<CashFlowEvent>, current: DecimalValue) -> Option<SummaryValue> {
    match (invested(flows), withdrawn(flows)) {
        (Some(paid_in), Some(taken_out)) => figures(paid_in, taken_out, current),
        _ => None,
    }
}

/// A sum paid in that has overflowed stays overflowed.
pub proof fn lemma_invested_overflow_stays(flows: Seq<CashFlowEvent>, count: int)
    requires
        0 <= count <= flows.len(),
        invested(flows.take(count)) is None,
    ensures
        invested(flows) is None,
    decreases flows.len(),
{
    if flows.len() == count {
        assert(flows.take(count) == flows);
    } else {
        assert(flows.drop_last().take(count) == flows.take(count));
        lemma_invested_overflow_stays(flows.drop_last(), count);
    }
}

/// A sum taken out that has overflowed stays overflowed.
pub proof fn lemma_withdrawn_overflow_stays(flows: Seq<CashFlowEvent>, count: int)
    requires
        0 <= count <= flows.len(),
        withdrawn(flows.take(count)) is None,
    ensures
        withdrawn(flows) is None,
    decreases flows.len(),
{
    if flows.len() == count {
        assert(flows.take(count) == flows);
    } else {
        assert(flows.drop_last().take(count) == flows.take(count));
        lemma_withdrawn_overflow_stays(flows.drop_last(), count);
    }
}

/// Totals the cash flows and derives profit and return from them and from
/// the current value. Fails when a figure overflows.
pub fn calculate_portfolio_stats(
    cash_flow_events: &Vec<CashFlowEvent>,
    current_value: Amount,
    current_date: Date,
) -> (r: Result<PortfolioStats, ValuationError>)
    ensures
        match r {
            Ok(s) => summary(cash_flow_events@, current_value@) == Some(
                SummaryValue {
                    total_invested: s.total_invested@,
                    total_withdrawn: s.total_withdrawn@,
                    profit_loss: s.profit_loss@,
                    return_percentage: s.return_percentage@,
                },
            ) && s.current_value == current_value && s.calc_date == current_date,
            Err(_) => summary(cash_flow_events@, current_value@) is None,
        },
{
    let mut total_invested = Amount::zero();
    let mut total_withdrawn = Amount::zero();
    let mut i: usize = 0;
    assert(cash_flow_events@.take(0) =~= Seq::empty());
    while i < cash_flow_events.len()
        invariant
            i <= cash_flow_events.len(),
            Some(total_invested@) == invested(cash_flow_events@.take(i as int)),
            Some(total_withdrawn@) == withdrawn(cash_flow_events@.take(i as int)),
        decreases cash_flow_events.len() - i,
    {
        proof {
            assert(cash_flow_events@.take(i + 1).drop_last() == cash_flow_events@.take(i as int));
            assert(cash_flow_events@.take(i + 1).last() == cash_flow_events[i as int]);
        }
        let amount = cash_flow_events[i].amount;
        if amount.is_positive() {
            match total_invested.checked_add(amount) {
                Some(t) => {
                    total_invested = t;
                },
                None => {
                    proof {
                        lemma_invested_overflow_stays(cash_flow_events@, i + 1);
                    }
                    return Err(ValuationError::Overflow);
                },
            }
        } else {
            match total_withdrawn.checked_add(amount.abs()) {
                Some(t) => {
                    total_withdrawn = t;
                },
                None => {
                    proof {
                        lemma_withdrawn_overflow_stays(cash_flow_events@, i + 1);
                    }
                    return Err(ValuationError::Overflow);
                },
            }
        }
        i += 1;
    }
    proof {
        assert(cash_flow_events@.take(cash_flow_events.len() as int) == cash_flow_events@);
    }
    let gross = match current_value.checked_add(total_withdrawn) {
        Some(g) => g,
        None => {
            return Err(ValuationError::Overflow);
        },
    };
    let profit_loss = match gross.checked_sub(total_invested) {
        Some(p) => p,
        None => {
            return Err(ValuationError::Overflow);
        },
    };
    let return_percentage = if total_invested.is_zero() {
        Amount::zero()
    } else {
        match profit_loss.checked_div(total_invested) {
            Some(q) => q,
            None => {
                return Err(ValuationError::Overflow);
            },
        }
    };
    Ok(
        PortfolioStats {
            total_invested,
            total_withdrawn,
            current_value,
            profit_loss,
            return_percentage,
            calc_date: current_date,
        },
    )
}

/// The cash flows that enter the money-weighted rate, in ledger order: each
/// flow into the portfolio as a payment by the investor, and at the end the
/// current value as what the investor holds.
pub open spec fn xirr_amounts(flows: Seq<CashFlowEvent>, current: DecimalValue) -> Seq<DecimalValue> {
    flows.map_values(|f: CashFlowEvent| negated(f.amount@)).push(current)
}

/// The day of each cash flow that enters the money-weighted rate.
pub open spec fn xirr_days(flows: Seq<CashFlowEvent>, current_day: int) -> Seq<i64> {
    flows.map_values(|f: CashFlowEvent| f.date@ as i64).push(current_day as i64)
}

/// Whether a root can be looked for: at least two cash flows, one of them
/// positive and one negative.
pub open spec fn solvable(amounts: Seq<DecimalValue>) -> bool {
    &&& amounts.len() >= 2
    &&& exists|i: int| 0 <= i < amounts.len() && (#[trigger] amounts[i]).mantissa > 0
    &&& exists|i: int| 0 <= i < amounts.len() && (#[trigger] amounts[i]).mantissa < 0
}

/// The values of amounts.
pub open spec fn values_of(amounts: Seq<Amount>) -> Seq<DecimalValue> {
    amounts.map_values(|a: Amount| a@)
}

/// Whether some amount is greater than zero, and whether some is less.
fn signs(amounts: &Vec<Amount>) -> (r: (bool, bool))
    ensures
        r.0 == exists|i: int| 0 <= i < amounts.len() && (#[trigger] values_of(amounts@)[i]).mantissa > 0,
        r.1 == exists|i: int| 0 <= i < amounts.len() && (#[trigger] values_of(amounts@)[i]).mantissa < 0,
{
    let mut has_positive = false;
    let mut has_negative = false;
    let mut i: usize = 0;
    while i < amounts.len()
        invariant
            i <= amounts.len(),
            has_positive == exists|k: int|
                0 <= k < i && (#[trigger] values_of(amounts@)[k]).mantissa > 0,
            has_negative == exists|k: int|
                0 <= k < i && (#[trigger] values_of(amounts@)[k]).mantissa < 0,
        decreases amounts.len() - i,
    {
        assert(values_of(amounts@)[i as int] == amounts[i as int]@);
        if amounts[i].is_positive() {
            has_positive = true;
        }
        if amounts[i].is_negative() {
            has_negative = true;
        }
        i += 1;
    }
    (has_positive, has_negative)
}

/// The cash flows of the money-weighted rate of return in the order of
/// their dates, flows of one date in ledger order, each with its distance in
/// days from the first; `None` where no root is to be looked for and the
/// rate is zero by definition.
pub fn xirr_schedule(cash_flow_events: &Vec<CashFlowEvent>, current_value: Amount, current_date: Date) -> (r:
    Option<XirrSchedule>)
    ensures
        r is Some == solvable(xirr_amounts(cash_flow_events@, current_value@)),
        match r {
            Some(s) => {
                let amounts = xirr_amounts(cash_flow_events@, current_value@);
                let days = xirr_days(cash_flow_events@, current_date@);
                &&& values_of(s.amounts@) == sorted_items(amounts, days)
                &&& s.day_offsets.len() == days.len()
                &&& forall|i: int|
                    0 <= i < days.len() ==> (#[trigger] s.day_offsets[i]) == sorted_keys(days)[i]
                        - sorted_keys(days)[0]
            },
            None => true,
        },
{
    let ghost amounts_spec = xirr_amounts(cash_flow_events@, current_value@);
    let ghost days_spec = xirr_days(cash_flow_events@, current_date@);
    let mut amounts: Vec<Amount> = Vec::new();
    let mut days: Vec<i64> = Vec::new();
    let mut i: usize = 0;
    while i < cash_flow_events.len()
        invariant
            i <= cash_flow_events.len(),
            amounts.len() == i,
            days.len() == i,
            forall|k: int|
                0 <= k < i ==> (#[trigger] amounts[k])@ == negated(cash_flow_events[k].amount@),
            forall|k: int| 0 <= k < i ==> (#[trigger] days[k]) == cash_flow_events[k].date@,
            forall|k: int| 0 <= k < i ==> crate::date::valid_day((#[trigger] days[k]) as int),
        decreases cash_flow_events.len() - i,
    {
        amounts.push(cash_flow_events[i].amount.negate());
        days.push(cash_flow_events[i].date.day_number() as i64);
        i += 1;
    }
    amounts.push(current_value);
    days.push(current_date.day_number() as i64);
    proof {
        assert(values_of(amounts@) =~= amounts_spec);
        assert(days@ =~= days_spec);
    }
    let (has_positive, has_negative) = signs(&amounts);
    if amounts.len() < 2 || !has_positive || !has_negative {
        return None;
    }
    let ghost unsorted = amounts@;
    let (sorted, sorted_days) = sort_by_keys(amounts, days);
    proof {
        lemma_sorted_items_map(unsorted, days_spec, |a: Amount| a@);
        crate::sorting::lemma_sorted_keys(days_spec);
        assert forall|k: int| 0 <= k < sorted_days.len() implies crate::date::valid_day(
            (#[trigger] sorted_days[k]) as int,
        ) by {
            broadcast use vstd::seq_lib::group_to_multiset_ensures;

            assert(sorted_days@.contains(sorted_days[k]));
            assert(days_spec.to_multiset().count(sorted_days[k]) > 0);
            assert(days_spec.contains(sorted_days[k]));
            let j = choose|j: int| 0 <= j < days_spec.len() && days_spec[j] == sorted_days[k];
        }
    }
    let first: i64 = sorted_days[0];
    let mut day_offsets: Vec<i64> = Vec::new();
    let mut k: usize = 0;
    while k < sorted_days.len()
        invariant
            k <= sorted_days.len(),
            first == sorted_days[0],
            day_offsets.len() == k,
            forall|j: int|
                0 <= j < sorted_days.len() ==> crate::date::valid_day((#[trigger] sorted_days[j]) as int),
            forall|j: int| 0 <= j < k ==> (#[trigger] day_offsets[j]) == sorted_days[j] - sorted_days[0],
        decreases sorted_days.len() - k,
    {
        assert(crate::date::valid_day(sorted_days[k as int] as int));
        assert(crate::date::valid_day(sorted_days[0] as int));
        day_offsets.push(sorted_days[k] - first);
        k += 1;
    }
    Some(XirrSchedule { day_offsets, amounts: sorted })
}

/// The net cash flow of a day: the flows dated that day, added in ledger
/// order. `None` on overflow.
pub open spec fn net_flow_on(flows: Seq<CashFlowEvent>, day: int) -> Option<DecimalValue>
    decreases flows.len(),
{
    if flows.len() == 0 {
        Some(zero_value())
    } else if flows.last().date@ == day {
        accumulate(net_flow_on(flows.drop_last(), day), flows.last().amount@)
    } else {
        net_flow_on(flows.drop_last(), day)
    }
}

/// A net cash flow that has overflowed stays overflowed.
pub proof fn lemma_net_flow_overflow_stays(flows: Seq<CashFlowEvent>, count: int, day: int)
    requires
        0 <= count <= flows.len(),
        net_flow_on(flows.take(count), day) is None,
    ensures
        net_flow_on(flows, day) is None,
    decreases flows.len(),
{
    if flows.len() == count {
        assert(flows.take(count) == flows);
    } else {
        assert(flows.drop_last().take(count) == flows.take(count));
        lemma_net_flow_overflow_stays(flows.drop_last(), count, day);
    }
}

/// The net cash flow of a date, or `None` when it overflows.
pub fn net_flow_of_day(flows: &Vec<CashFlowEvent>, date: Date) -> (r: Option<Amount>)
    ensures
        crate::decimal::value_of(r) == net_flow_on(flows@, date@),
{
    let mut net = Amount::zero();
    let mut i: usize = 0;
    assert(flows@.take(0) =~= Seq::empty());
    while i < flows.len()
        invariant
            i <= flows.len(),
            Some(net@) == net_flow_on(flows@.take(i as int), date@),
        decreases flows.len() - i,
    {
        proof {
            assert(flows@.take(i + 1).drop_last() == flows@.take(i as int));
            assert(flows@.take(i + 1).last() == flows[i as int]);
        }
        if flows[i].date.same_day(date) {
            match net.checked_add(flows[i].amount) {
                Some(n) => {
                    net = n;
                },
                None => {
                    proof {
                        lemma_net_flow_overflow_stays(flows@, i + 1, date@);
                    }
                    return None;
                },
            }
        }
        i += 1;
    }
    proof {
        assert(flows@.take(flows.len() as int) == flows@);
    }
    Some(net)
}

/// Whether a valued date bounds a sub-period: the first valued date, the
/// date of the calculation, and every date with a net cash flow.
pub open spec fn is_break(index: int, day: int, current_day: int, flow: DecimalValue) -> bool {
    index == 0 || day == current_day || flow.mantissa != 0
}

/// By how much the portfolio grew from one break date to the next: the value
/// at the end, less the cash that came in on that day, over the value at the
/// start. `None` on overflow.
pub open spec fn growth_factor(start: DecimalValue, end: DecimalValue, flow: DecimalValue) -> Option<
    DecimalValue,
> {
    match difference_of(end, flow) {
        None => None,
        Some(before_flow) => quotient_of(before_flow, start),
    }
}

/// One step of the scan: the state after the valued date with the given index.
pub open spec fn twr_step(
    state: TwrState,
    index: int,
    day: int,
    value: DecimalValue,
    flow: DecimalValue,
    current_day: int,
    values: Seq<Amount>,
) -> Option<TwrState> {
    if !is_break(index, day, current_day, flow) {
        Some(state)
    } else {
        match state.last_break {
            None => Some(
                TwrState {
                    last_break: Some(index),
                    factors: state.factors,
                    break_count: state.break_count + 1,
                },
            ),
            Some(start) => if values[start]@.mantissa == 0 {
                Some(
                    TwrState {
                        last_break: Some(index),
                        factors: state.factors,
                        break_count: state.break_count + 1,
                    },
                )
            } else {
                match growth_factor(values[start]@, value, flow) {
                    None => None,
                    Some(factor) => Some(
                        TwrState {
                            last_break: Some(index),
                            factors: state.factors.push(factor),
                            break_count: state.break_count + 1,
                        },
                    ),
                }
            },
        }
    }
}

/// The scan of the first `count` valued dates: the break dates among them
/// are chained, and each sub-period that starts with a value other than zero
/// gives a growth factor. `None` on overflow.
pub open spec fn twr_scan(
    dates: Seq<Date>,
    values: Seq<Amount>,
    flows: Seq<CashFlowEvent>,
    current_day: int,
    count: int,
) -> Option<TwrState>
    decreases count,
{
    if count <= 0 {
        Some(TwrState { last_break: None, factors: Seq::empty(), break_count: 0 })
    } else {
        match twr_scan(dates, values, flows, current_day, count - 1) {
            None => None,
            Some(state) => match net_flow_on(flows, dates[count - 1]@) {
                None => None,
                Some(flow) => twr_step(
                    state,
                    count - 1,
                    dates[count - 1]@,
                    values[count - 1]@,
                    flow,
                    current_day,
                    values,
                ),
            },
        }
    }
}

/// A scan that has overflowed stays overflowed.
pub proof fn lemma_scan_overflow_stays(
    dates: Seq<Date>,
    values: Seq<Amount>,
    flows: Seq<CashFlowEvent>,
    current_day: int,
    count: int,
    more: int,
)
    requires
        0 <= count <= more,
        twr_scan(dates, values, flows, current_day, count) is None,
    ensures
        twr_scan(dates, values, flows, current_day, more) is None,
    decreases more - count,
{
    if count < more {
        lemma_scan_overflow_stays(dates, values, flows, current_day, count, more - 1);
    }
}

/// The days from the first valued date to the date of the calculation, zero
/// where no date is valued.
pub open spec fn elapsed(dates: Seq<Date>, current_day: int) -> int {
    if dates.len() == 0 {
        0
    } else {
        current_day - dates[0]@
    }
}

/// A value recorded for a date.
#[derive(Clone, Copy, Debug)]
pub struct DatedValue {
    pub date: Date,
    pub value: Amount,
}

/// Dates and values side by side, as they were given.
pub open spec fn dated(dates: Seq<Date>, values: Seq<Amount>) -> Seq<DatedValue> {
    Seq::new(dates.len(), |i: int| DatedValue { date: dates[i], value: values[i] })
}

/// The day number of each dated value, by which they are ordered.
pub open spec fn date_keys(items: Seq<DatedValue>) -> Seq<i64> {
    items.map_values(|v: DatedValue| v.date@ as i64)
}

/// Whether no value of the same date follows the one at `index`.
pub open spec fn closes_date(items: Seq<DatedValue>, index: int) -> bool {
    index + 1 >= items.len() || items[index + 1].date@ != items[index].date@
}

/// Of the first `count` dated values, those that no value of the same date
/// follows.
pub open spec fn latest_of_each_date(items: Seq<DatedValue>, count: int) -> Seq<DatedValue>
    decreases count,
{
    if count <= 0 {
        Seq::empty()
    } else {
        let earlier = latest_of_each_date(items, count - 1);
        if closes_date(items, count - 1) {
            earlier.push(items[count - 1])
        } else {
            earlier
        }
    }
}

/// The value series that dates and values give: one value for each date,
/// in the order of the dates; where a date was given several values, the
/// one given last counts.
pub open spec fn value_series(dates: Seq<Date>, values: Seq<Amount>) -> Seq<DatedValue> {
    let ordered = sorted_items(dated(dates, values), date_keys(dated(dates, values)));
    latest_of_each_date(ordered, ordered.len() as int)
}

/// The dates of a series.
pub open spec fn series_dates(series: Seq<DatedValue>) -> Seq<Date> {
    series.map_values(|v: DatedValue| v.date)
}

/// The values of a series.
pub open spec fn series_values(series: Seq<DatedValue>) -> Seq<Amount> {
    series.map_values(|v: DatedValue| v.value)
}

/// The scan of the value series that dates and values give. Dates and
/// values that are not equally many give no series and no sub-period.
/// `None` on overflow.
pub open spec fn twr_of(
    dates: Seq<Date>,
    values: Seq<Amount>,
    flows: Seq<CashFlowEvent>,
    current_day: int,
) -> Option<TwrState> {
    if dates.len() != values.len() {
        Some(TwrState { last_break: None, factors: Seq::empty(), break_count: 0 })
    } else {
        let series = value_series(dates, values);
        twr_scan(
            series_dates(series),
            series_values(series),
            flows,
            current_day,
            series.len() as int,
        )
    }
}

/// The days from the first date of the value series to the date of the
/// calculation, zero where there is no series.
pub open spec fn elapsed_of(dates: Seq<Date>, values: Seq<Amount>, current_day: int) -> int {
    if dates.len() != values.len() {
        0
    } else {
        elapsed(series_dates(value_series(dates, values)), current_day)
    }
}

/// The sub-periods over valued dates as they stand: their growth factors in
/// the order of the dates, the number of break dates, and the days from the
/// first date to the calculation. Fails when a net cash flow or a growth
/// factor overflows.
fn scan_periods(
    daily_dates: &Vec<Date>,
    daily_values: &Vec<Amount>,
    cash_flow_events: &Vec<CashFlowEvent>,
    current_date: Date,
) -> (r: Result<TwrPeriods, ValuationError>)
    requires
        daily_values.len() == daily_dates.len(),
    ensures
        match r {
            Ok(p) => twr_scan(
                daily_dates@,
                daily_values@,
                cash_flow_events@,
                current_date@,
                daily_dates.len() as int,
            ) matches Some(state) && values_of(p.factors@) == state.factors && p.break_count
                == state.break_count && p.elapsed_days == elapsed(daily_dates@, current_date@),
            Err(_) => twr_scan(
                daily_dates@,
                daily_values@,
                cash_flow_events@,
                current_date@,
                daily_dates.len() as int,
            ) is None,
        },
{
    let n = daily_dates.len();
    let mut factors: Vec<Amount> = Vec::new();
    let mut break_count: usize = 0;
    let mut last_break: Option<usize> = None;
    let mut i: usize = 0;
    proof {
        assert(values_of(factors@) =~= Seq::empty());
    }
    while i < n
        invariant
            i <= n,
            n == daily_dates.len(),
            daily_values.len() == n,
            break_count <= i,
            twr_scan(daily_dates@, daily_values@, cash_flow_events@, current_date@, i as int) == Some(
                TwrState {
                    last_break: match last_break {
                        Some(b) => Some(b as int),
                        None => None,
                    },
                    factors: values_of(factors@),
                    break_count: break_count as int,
                },
            ),
            last_break matches Some(b) ==> b < i,
        decreases n - i,
    {
        let date = daily_dates[i];
        let flow = match net_flow_of_day(cash_flow_events, date) {
            Some(f) => f,
            None => {
                proof {
                    assert(twr_scan(
                        daily_dates@,
                        daily_values@,
                        cash_flow_events@,
                        current_date@,
                        i + 1,
                    ) is None);
                    lemma_scan_overflow_stays(
                        daily_dates@,
                        daily_values@,
                        cash_flow_events@,
                        current_date@,
                        i + 1,
                        n as int,
                    );
                }
                return Err(ValuationError::Overflow);
            },
        };
        if i == 0 || date.same_day(current_date) || !flow.is_zero() {
            match last_break {
                None => {},
                Some(start) => {
                    let start_value = daily_values[start];
                    if !start_value.is_zero() {
                        let factor = match daily_values[i].checked_sub(flow) {
                            Some(before_flow) => before_flow.checked_div(start_value),
                            None => None,
                        };
                        match factor {
                            Some(f) => {
                                let ghost before = factors@;
                                factors.push(f);
                                proof {
                                    assert(values_of(factors@) =~= values_of(before).push(f@));
                                }
                            },
                            None => {
                                proof {
                                    assert(twr_scan(
                                        daily_dates@,
                                        daily_values@,
                                        cash_flow_events@,
                                        current_date@,
                                        i + 1,
                                    ) is None);
                                    lemma_scan_overflow_stays(
                                        daily_dates@,
                                        daily_values@,
                                        cash_flow_events@,
                                        current_date@,
                                        i + 1,
                                        n as int,
                                    );
                                }
                                return Err(ValuationError::Overflow);
                            },
                        }
                    }
                },
            }
            last_break = Some(i);
            break_count += 1;
        }
        i += 1;
    }
    let elapsed_days: i64 = if n == 0 {
        0
    } else {
        current_date.days_since(daily_dates[0])
    };
    Ok(TwrPeriods { factors, break_count, elapsed_days })
}

/// Where no two neighbours share a date, every dated value is the latest
/// of its date.
pub proof fn lemma_all_latest(items: Seq<DatedValue>, count: int)
    requires
        0 <= count <= items.len(),
        forall|i: int| 0 <= i < items.len() - 1 ==> (#[trigger] items[i]).date@ != items[i + 1].date@,
    ensures
        latest_of_each_date(items, count) == items.take(count),
    decreases count,
{
    if count > 0 {
        lemma_all_latest(items, count - 1);
        assert(closes_date(items, count - 1)) by {
            if count < items.len() {
                assert(items[count - 1].date@ != items[count - 1 + 1].date@);
            }
        }
        assert(items.take(count) =~= items.take(count - 1).push(items[count - 1]));
    } else {
        assert(items.take(count) =~= Seq::<DatedValue>::empty());
    }
}

/// Dates that ascend strictly, each with its value, are their own value
/// series: nothing is put in another place and nothing is left out.
pub proof fn lemma_series_of_ascending_dates(dates: Seq<Date>, values: Seq<Amount>)
    requires
        dates.len() == values.len(),
        forall|i: int| 0 <= i < dates.len() ==> valid_day((#[trigger] dates[i])@),
        strictly_ascending(dates),
    ensures
        value_series(dates, values) == dated(dates, values),
        series_dates(value_series(dates, values)) == dates,
        series_values(value_series(dates, values)) == values,
{
    let items = dated(dates, values);
    let keys = date_keys(items);
    assert(crate::sorting::keys_ascend(keys)) by {
        assert forall|i: int, j: int| 0 <= i <= j < keys.len() implies keys[i] <= keys[j] by {
            if i < j {
                assert(dates[i]@ < dates[j]@);
            }
        }
    }
    crate::sorting::lemma_sorted_stays(items, keys);
    assert forall|i: int| 0 <= i < items.len() - 1 implies (#[trigger] items[i]).date@ != items[i + 1].date@ by {
        assert(dates[i]@ < dates[i + 1]@);
    }
    lemma_all_latest(items, items.len() as int);
    assert(items.take(items.len() as int) =~= items);
    assert(series_dates(items) =~= dates);
    assert(series_values(items) =~= values);
}

/// The value series of dates and values that are equally many.
fn series_of(daily_dates: &Vec<Date>, daily_values: &Vec<Amount>) -> (r: Vec<DatedValue>)
    requires
        daily_values.len() == daily_dates.len(),
    ensures
        r@ == value_series(daily_dates@, daily_values@),
{
    let n = daily_dates.len();
    let mut items: Vec<DatedValue> = Vec::new();
    let mut keys: Vec<i64> = Vec::new();
    let mut i: usize = 0;
    while i < n
        invariant
            i <= n,
            n == daily_dates.len(),
            daily_values.len() == n,
            items.len() == i,
            keys.len() == i,
            forall|k: int|
                0 <= k < i ==> (#[trigger] items[k]) == (DatedValue {
                    date: daily_dates[k],
                    value: daily_values[k],
                }),
            forall|k: int| 0 <= k < i ==> (#[trigger] keys[k]) == daily_dates[k]@,
        decreases n - i,
    {
        items.push(DatedValue { date: daily_dates[i], value: daily_values[i] });
        keys.push(daily_dates[i].day_number() as i64);
        i += 1;
    }
    proof {
        assert(items@ =~= dated(daily_dates@, daily_values@));
        assert(keys@ =~= date_keys(items@));
    }
    let (ordered, _) = sort_by_keys(items, keys);
    let m = ordered.len();
    let mut series: Vec<DatedValue> = Vec::new();
    let mut j: usize = 0;
    while j < m
        invariant
            j <= m,
            m == ordered.len(),
            series@ == latest_of_each_date(ordered@, j as int),
        decreases m - j,
    {
        if j + 1 >= m || !ordered[j + 1].date.same_day(ordered[j].date) {
            series.push(ordered[j]);
        }
        j += 1;
    }
    series
}

/// The sub-periods of the time-weighted rate of return over the value
/// series that dates and values give: their growth factors in the order of
/// the dates, the number of break dates, and the days from the first date
/// of the series to the calculation. The dates may come in any order; of
/// several values for one date the last counts. Dates and values that are
/// not equally many give no series: no factor, no break date, no days.
/// Fails when a net cash flow or a growth factor overflows.
pub fn twr_periods(
    daily_dates: &Vec<Date>,
    daily_values: &Vec<Amount>,
    cash_flow_events: &Vec<CashFlowEvent>,
    current_date: Date,
) -> (r: Result<TwrPeriods, ValuationError>)
    ensures
        match r {
            Ok(p) => twr_of(daily_dates@, daily_values@, cash_flow_events@, current_date@) matches Some(
                state,
            ) && values_of(p.factors@) == state.factors && p.break_count == state.break_count
                && p.elapsed_days == elapsed_of(daily_dates@, daily_values@, current_date@),
            Err(_) => twr_of(daily_dates@, daily_values@, cash_flow_events@, current_date@) is None,
        },
{
    if daily_dates.len() != daily_values.len() {
        let factors: Vec<Amount> = Vec::new();
        proof {
            assert(values_of(factors@) =~= Seq::empty());
        }
        return Ok(TwrPeriods { factors, break_count: 0, elapsed_days: 0 });
    }
    let series = series_of(daily_dates, daily_values);
    let mut dates: Vec<Date> = Vec::new();
    let mut values: Vec<Amount> = Vec::new();
    let mut i: usize = 0;
    while i < series.len()
        invariant
            i <= series.len(),
            dates@ == series_dates(series@).take(i as int),
            values@ == series_values(series@).take(i as int),
        decreases series.len() - i,
    {
        dates.push(series[i].date);
        values.push(series[i].value);
        proof {
            assert(series_dates(series@).take(i + 1) =~= series_dates(series@).take(i as int).push(
                series[i as int].date,
            ));
            assert(series_values(series@).take(i + 1) =~= series_values(series@).take(i as int).push(
                series[i as int].value,
            ));
        }
        i += 1;
    }
    proof {
        assert(dates@ =~= series_dates(series@));
        assert(values@ =~= series_values(series@));
    }
    scan_periods(&dates, &values, cash_flow_events, current_date)
}

} // verus!

//! How new capital is to be spread over a portfolio to move it towards its
//! target allocation.
//!
//! Only tickers that are both held and targeted take part. Their targets are
//! scaled to a hundred per cent, the new total is what they are worth plus
//! the new capital, and each ticker is to receive what it lacks to its share
//! of the new total; nothing is sold.

use vstd::prelude::*;
use crate::decimal::{
    accumulate, difference_of, product_of, quotient_of, rounded_to, sum_of, whole_value, zero_value,
    Amount, DecimalValue,
};
use crate::text::same_text;

verus! {

/// The digits after the decimal point to which the figures are rounded.
pub const REPORTED_PLACES: u32 = 2;

/// An amount under a ticker: a value held, or a target in per cent.
#[derive(Clone, Debug)]
pub struct TickerAmount {
    pub ticker: String,
    pub amount: Amount,
}

/// What one ticker is worth, is to be worth, and is to receive.
#[derive(Clone, Debug)]
pub struct RebalanceInvestment {
    pub ticker: String,
    pub current_value: Amount,
    pub target_value: Amount,
    pub investment_amount: Amount,
}

/// The totals of a rebalancing.
#[derive(Clone, Copy, Debug)]
pub struct RebalanceSummary {
    pub total_current: Amount,
    pub new_total: Amount,
    pub total_investment: Amount,
}

/// A rebalancing: what each ticker is to receive, and the totals.
#[derive(Clone, Debug)]
pub struct RebalanceResult {
    pub investments: Vec<RebalanceInvestment>,
    pub summary: RebalanceSummary,
}

/// Why no rebalancing could be worked out.
#[derive(Clone, Copy, Debug, PartialEq, Eq, Structural)]
pub enum RebalanceError {
    /// No ticker is both held and targeted.
    NoCommonTickers,
    /// The targets of the common tickers add up to zero.
    ZeroTargetTotal,
    /// An amount left the range that a decimal can hold.
    Overflow,
}

/// A ticker that is both held and targeted.
pub struct Pairing {
    pub ticker: Seq<char>,
    pub current: DecimalValue,
    pub target: DecimalValue,
}

/// What is reported for one ticker, as plain values.
pub struct InvestmentValue {
    pub ticker: Seq<char>,
    pub current_value: DecimalValue,
    pub target_value: DecimalValue,
    pub investment_amount: DecimalValue,
}

/// A rebalancing, as plain values.
pub struct RebalanceValue {
    pub investments: Seq<InvestmentValue>,
    pub total_current: DecimalValue,
    pub new_total: DecimalValue,
    pub total_investment: DecimalValue,
}

/// The amount of the first entry under a ticker, from position `from` on.
pub open spec fn amount_from(entries: Seq<TickerAmount>, ticker: Seq<char>, from: int) -> Option<
    DecimalValue,
>
    decreases entries.len() - from,
{
    if from < 0 || from >= entries.len() {
        None
    } else if entries[from].ticker@ == ticker {
        Some(entries[from].amount@)
    } else {
        amount_from(entries, ticker, from + 1)
    }
}

/// The amount under a ticker: that of the first entry with the ticker.
pub open spec fn amount_of(entries: Seq<TickerAmount>, ticker: Seq<char>) -> Option<DecimalValue> {
    amount_from(entries, ticker, 0)
}

/// Whether the ticker of the entry at `index` occurs before it.
pub open spec fn repeated(entries: Seq<TickerAmount>, index: int) -> bool {
    exists|j: int| 0 <= j < index && (#[trigger] entries[j]).ticker@ == entries[index].ticker@
}

/// The tickers among the first `count` holdings that are targeted, in the
/// order of the holdings, each ticker once.
pub open spec fn pairings(current: Seq<TickerAmount>, targets: Seq<TickerAmount>, count: int) -> Seq<
    Pairing,
>
    decreases count,
{
    if count <= 0 {
        Seq::empty()
    } else {
        let earlier = pairings(current, targets, count - 1);
        let entry = current[count - 1];
        match amount_of(targets, entry.ticker@) {
            Some(target) => if repeated(current, count - 1) {
                earlier
            } else {
                earlier.push(Pairing { ticker: entry.ticker@, current: entry.amount@, target })
            },
            None => earlier,
        }
    }
}

/// The sum of the targets of the first `count` pairings, `None` on overflow.
pub open spec fn target_total(pairs: Seq<Pairing>, count: int) -> Option<DecimalValue>
    decreases count,
{
    if count <= 0 {
        Some(zero_value())
    } else {
        accumulate(target_total(pairs, count - 1), pairs[count - 1].target)
    }
}

/// The sum of the values of the first `count` pairings, `None` on overflow.
pub open spec fn current_total(pairs: Seq<Pairing>, count: int) -> Option<DecimalValue>
    decreases count,
{
    if count <= 0 {
        Some(zero_value())
    } else {
        accumulate(current_total(pairs, count - 1), pairs[count - 1].current)
    }
}

/// What a ticker is to be worth: its target over the sum of the targets, in
/// per cent, taken from the new total. `None` on overflow.
pub open spec fn target_value(target: DecimalValue, targets: DecimalValue, new_total: DecimalValue) -> Option<
    DecimalValue,
> {
    match quotient_of(target, targets) {
        None => None,
        Some(share) => match product_of(share, whole_value(100)) {
            None => None,
            Some(percent) => match quotient_of(percent, whole_value(100)) {
                None => None,
                Some(fraction) => product_of(new_total, fraction),
            },
        },
    }
}

/// What a ticker is to receive: what it lacks to its target value, nothing
/// where it is worth more.
pub open spec fn investment(target_value: DecimalValue, current: DecimalValue) -> Option<DecimalValue> {
    match difference_of(target_value, current) {
        None => None,
        Some(gap) => if gap.mantissa < 0 {
            Some(zero_value())
        } else {
            Some(gap)
        },
    }
}

/// The rows of the first `count` pairings and the sum of what they are to
/// receive, before rounding. `None` on overflow.
pub open spec fn plans(
    pairs: Seq<Pairing>,
    targets: DecimalValue,
    new_total: DecimalValue,
    count: int,
) -> Option<(Seq<InvestmentValue>, DecimalValue)>
    decreases count,
{
    if count <= 0 {
        Some((Seq::empty(), zero_value()))
    } else {
        match plans(pairs, targets, new_total, count - 1) {
            None => None,
            Some(earlier) => {
                let pair = pairs[count - 1];
                match target_value(pair.target, targets, new_total) {
                    None => None,
                    Some(target) => match investment(target, pair.current) {
                        None => None,
                        Some(invest) => match sum_of(earlier.1, invest) {
                            None => None,
                            Some(total) => Some(
                                (
                                    earlier.0.push(
                                        InvestmentValue {
                                            ticker: pair.ticker,
                                            current_value: rounded_to(
                                                pair.current,
                                                REPORTED_PLACES as int,
                                            ),
                                            target_value: rounded_to(target, REPORTED_PLACES as int),
                                            investment_amount: rounded_to(
                                                invest,
                                                REPORTED_PLACES as int,
                                            ),
                                        },
                                    ),
                                    total,
                                ),
                            ),
                        },
                    },
                }
            },
        }
    }
}

/// The rebalancing of the pairings with new capital.
pub open spec fn rebalanced_pairs(new_capital: DecimalValue, pairs: Seq<Pairing>) -> Result<
    RebalanceValue,
    RebalanceError,
> {
    if pairs.len() == 0 {
        Err(RebalanceError::NoCommonTickers)
    } else {
        match target_total(pairs, pairs.len() as int) {
            None => Err(RebalanceError::Overflow),
            Some(targets) => if targets.mantissa == 0 {
                Err(RebalanceError::ZeroTargetTotal)
            } else {
                match current_total(pairs, pairs.len() as int) {
                    None => Err(RebalanceError::Overflow),
                    Some(held) => match sum_of(held, new_capital) {
                        None => Err(RebalanceError::Overflow),
                        Some(new_total) => match plans(pairs, targets, new_total, pairs.len() as int) {
                            None => Err(RebalanceError::Overflow),
                            Some(planned) => Ok(
                                RebalanceValue {
                                    investments: planned.0,
                                    total_current: rounded_to(held, REPORTED_PLACES as int),
                                    new_total: rounded_to(new_total, REPORTED_PLACES as int),
                                    total_investment: rounded_to(planned.1, REPORTED_PLACES as int),
                                },
                            ),
                        },
                    },
                }
            },
        }
    }
}

/// The rebalancing of holdings towards targets with new capital.
pub open spec fn rebalanced(
    new_capital: DecimalValue,
    current: Seq<TickerAmount>,
    targets: Seq<TickerAmount>,
) -> Result<RebalanceValue, RebalanceError> {
    rebalanced_pairs(new_capital, pairings(current, targets, current.len() as int))
}

/// What a row reports, as plain values.
pub open spec fn row_value(row: RebalanceInvestment) -> InvestmentValue {
    InvestmentValue {
        ticker: row.ticker@,
        current_value: row.current_value@,
        target_value: row.target_value@,
        investment_amount: row.investment_amount@,
    }
}

/// What a result reports, as plain values.
pub open spec fn result_value(r: Result<RebalanceResult, RebalanceError>) -> Result<
    RebalanceValue,
    RebalanceError,
> {
    match r {
        Ok(done) => Ok(
            RebalanceValue {
                investments: done.investments@.map_values(|row: RebalanceInvestment| row_value(row)),
                total_current: done.summary.total_current@,
                new_total: done.summary.new_total@,
                total_investment: done.summary.total_investment@,
            },
        ),
        Err(e) => Err(e),
    }
}

/// What a paired ticker holds, with the ticker as text.
struct Pair {
    ticker: String,
    current: Amount,
    target: Amount,
}

/// The pairings that a list of pairs stands for.
spec fn pairs_value(pairs: Seq<Pair>) -> Seq<Pairing> {
    pairs.map_values(|p: Pair| Pairing { ticker: p.ticker@, current: p.current@, target: p.target@ })
}

/// A total that has overflowed stays overflowed.
proof fn lemma_target_overflow_stays(pairs: Seq<Pairing>, count: int, more: int)
    requires
        0 <= count <= more,
        target_total(pairs, count) is None,
    ensures
        target_total(pairs, more) is None,
    decreases more - count,
{
    if count < more {
        lemma_target_overflow_stays(pairs, count, more - 1);
    }
}

/// A total that has overflowed stays overflowed.
proof fn lemma_current_overflow_stays(pairs: Seq<Pairing>, count: int, more: int)
    requires
        0 <= count <= more,
        current_total(pairs, count) is None,
    ensures
        current_total(pairs, more) is None,
    decreases more - count,
{
    if count < more {
        lemma_current_overflow_stays(pairs, count, more - 1);
    }
}

/// Plans that have overflowed stay overflowed.
proof fn lemma_plans_overflow_stays(
    pairs: Seq<Pairing>,
    targets: DecimalValue,
    new_total: DecimalValue,
    count: int,
    more: int,
)
    requires
        0 <= count <= more,
        plans(pairs, targets, new_total, count) is None,
    ensures
        plans(pairs, targets, new_total, more) is None,
    decreases more - count,
{
    if count < more {
        lemma_plans_overflow_stays(pairs, targets, new_total, count, more - 1);
    }
}

/// The amount under a ticker, if there is one.
pub fn find_amount(entries: &Vec<TickerAmount>, ticker: &str) -> (r: Option<Amount>)
    ensures
        crate::decimal::value_of(r) == amount_of(entries@, ticker@),
{
    let mut i: usize = 0;
    while i < entries.len()
        invariant
            i <= entries.len(),
            amount_of(entries@, ticker@) == amount_from(entries@, ticker@, i as int),
        decreases entries.len() - i,
    {
        if same_text(entries[i].ticker.as_str(), ticker) {
            return Some(entries[i].amount);
        }
        i += 1;
    }
    None
}

/// Whether the ticker of the entry at `index` occurs before it.
fn occurs_before(entries: &Vec<TickerAmount>, index: usize) -> (r: bool)
    requires
        index < entries.len(),
    ensures
        r == repeated(entries@, index as int),
{
    let mut j: usize = 0;
    while j < index
        invariant
            j <= index,
            index < entries.len(),
            forall|k: int| 0 <= k < j ==> (#[trigger] entries[k]).ticker@ != entries[index as int].ticker@,
        decreases index - j,
    {
        if same_text(entries[j].ticker.as_str(), entries[index].ticker.as_str()) {
            return true;
        }
        j += 1;
    }
    false
}

/// The share of the new total that a ticker is to be worth.
fn compute_target_value(target: Amount, targets: Amount, new_total: Amount) -> (r: Option<Amount>)
    ensures
        crate::decimal::value_of(r) == target_value(target@, targets@, new_total@),
{
    let share = match target.checked_div(targets) {
        Some(s) => s,
        None => {
            return None;
        },
    };
    let percent = match share.checked_mul(Amount::from_int(100)) {
        Some(p) => p,
        None => {
            return None;
        },
    };
    let fraction = match percent.checked_div(Amount::from_int(100)) {
        Some(f) => f,
        None => {
            return None;
        },
    };
    new_total.checked_mul(fraction)
}

/// Works out what each ticker that is both held and targeted is to receive
/// of the new capital. Where a ticker occurs more than once in a list, its
/// first entry counts. Figures are reported rounded to two places; the sum
/// of the investments is rounded after it is added up.
pub fn calculate_rebalancing(
    new_capital: Amount,
    current_values: &Vec<TickerAmount>,
    target_allocations: &Vec<TickerAmount>,
) -> (r: Result<RebalanceResult, RebalanceError>)
    ensures
        result_value(r) == rebalanced(new_capital@, current_values@, target_allocations@),
{
    let mut pairs: Vec<Pair> = Vec::new();
    let mut i: usize = 0;
    proof {
        assert(pairs_value(pairs@) =~= Seq::empty());
    }
    while i < current_values.len()
        invariant
            i <= current_values.len(),
            pairs_value(pairs@) == pairings(current_values@, target_allocations@, i as int),
        decreases current_values.len() - i,
    {
        let ghost before = pairs@;
        match find_amount(target_allocations, current_values[i].ticker.as_str()) {
            Some(target) => {
                if !occurs_before(current_values, i) {
                    pairs.push(
                        Pair {
                            ticker: current_values[i].ticker.clone(),
                            current: current_values[i].amount,
                            target,
                        },
                    );
                    proof {
                        assert(pairs_value(pairs@) =~= pairs_value(before).push(
                            Pairing {
                                ticker: current_values[i as int].ticker@,
                                current: current_values[i as int].amount@,
                                target: target@,
                            },
                        ));
                    }
                }
            },
            None => {},
        }
        i += 1;
    }
    let ghost paired = pairs_value(pairs@);
    let n = pairs.len();
    if n == 0 {
        return Err(RebalanceError::NoCommonTickers);
    }
    let mut targets = Amount::zero();
    let mut held = Amount::zero();
    let mut k: usize = 0;
    while k < n
        invariant
            k <= n,
            n == pairs.len(),
            paired == pairs_value(pairs@),
            paired == pairings(current_values@, target_allocations@, current_values.len() as int),
            paired.len() == n,
            n > 0,
            Some(targets@) == target_total(paired, k as int),
        decreases n - k,
    {
        assert(paired[k as int].target == pairs[k as int].target@);
        targets = match targets.checked_add(pairs[k].target) {
            Some(t) => t,
            None => {
                proof {
                    lemma_target_overflow_stays(paired, k + 1, n as int);
                }
                return Err(RebalanceError::Overflow);
            },
        };
        k += 1;
    }
    if targets.is_zero() {
        return Err(RebalanceError::ZeroTargetTotal);
    }
    k = 0;
    while k < n
        invariant
            k <= n,
            n == pairs.len(),
            paired == pairs_value(pairs@),
            paired == pairings(current_values@, target_allocations@, current_values.len() as int),
            paired.len() == n,
            n > 0,
            Some(targets@) == target_total(paired, n as int),
            targets@.mantissa != 0,
            Some(held@) == current_total(paired, k as int),
        decreases n - k,
    {
        assert(paired[k as int].current == pairs[k as int].current@);
        held = match held.checked_add(pairs[k].current) {
            Some(t) => t,
            None => {
                proof {
                    lemma_current_overflow_stays(paired, k + 1, n as int);
                }
                return Err(RebalanceError::Overflow);
            },
        };
        k += 1;
    }
    let new_total = match held.checked_add(new_capital) {
        Some(t) => t,
        None => {
            return Err(RebalanceError::Overflow);
        },
    };
    let mut investments: Vec<RebalanceInvestment> = Vec::new();
    let mut total_investment = Amount::zero();
    k = 0;
    proof {
        assert(investments@.map_values(|row: RebalanceInvestment| row_value(row)) =~= Seq::empty());
    }
    while k < n
        invariant
            k <= n,
            n == pairs.len(),
            paired == pairs_value(pairs@),
            paired == pairings(current_values@, target_allocations@, current_values.len() as int),
            paired.len() == n,
            n > 0,
            Some(targets@) == target_total(paired, n as int),
            targets@.mantissa != 0,
            Some(held@) == current_total(paired, n as int),
            Some(new_total@) == sum_of(held@, new_capital@),
            plans(paired, targets@, new_total@, k as int) == Some(
                (
                    investments@.map_values(|row: RebalanceInvestment| row_value(row)),
                    total_investment@,
                ),
            ),
        decreases n - k,
    {
        let ghost before = investments@;
        assert(paired[k as int].current == pairs[k as int].current@);
        assert(paired[k as int].target == pairs[k as int].target@);
        assert(paired[k as int].ticker == pairs[k as int].ticker@);
        let target = match compute_target_value(pairs[k].target, targets, new_total) {
            Some(t) => t,
            None => {
                proof {
                    lemma_plans_overflow_stays(paired, targets@, new_total@, k + 1, n as int);
                }
                return Err(RebalanceError::Overflow);
            },
        };
        let invest = match target.checked_sub(pairs[k].current) {
            Some(gap) => if gap.is_negative() {
                Amount::zero()
            } else {
                gap
            },
            None => {
                proof {
                    lemma_plans_overflow_stays(paired, targets@, new_total@, k + 1, n as int);
                }
                return Err(RebalanceError::Overflow);
            },
        };
        total_investment = match total_investment.checked_add(invest) {
            Some(t) => t,
            None => {
                proof {
                    lemma_plans_overflow_stays(paired, targets@, new_total@, k + 1, n as int);
                }
                return Err(RebalanceError::Overflow);
            },
        };
        let row = RebalanceInvestment {
            ticker: pairs[k].ticker.clone(),
            current_value: pairs[k].current.round_dp(REPORTED_PLACES),
            target_value: target.round_dp(REPORTED_PLACES),
            investment_amount: invest.round_dp(REPORTED_PLACES),
        };
        investments.push(row);
        proof {
            assert(investments@.map_values(|row: RebalanceInvestment| row_value(row))
                =~= before.map_values(|row: RebalanceInvestment| row_value(row)).push(
                row_value(row),
            ));
        }
        k += 1;
    }
    Ok(
        RebalanceResult {
            investments,
            summary: RebalanceSummary {
                total_current: held.round_dp(REPORTED_PLACES),
                new_total: new_total.round_dp(REPORTED_PLACES),
                total_investment: total_investment.round_dp(REPORTED_PLACES),
            },
        },
    )
}

impl RebalanceError {
    /// The error in words.
    pub fn message(&self) -> (r: String)
        ensures
            r@ == match self {
                RebalanceError::NoCommonTickers =>
                    "No common tickers between current portfolio and target allocations"@,
                RebalanceError::ZeroTargetTotal => "Target allocations sum to zero"@,
                RebalanceError::Overflow => "An amount exceeds the range of a decimal"@,
            },
    {
        match self {
            RebalanceError::NoCommonTickers =>
                "No common tickers between current portfolio and target allocations".to_owned(),
            RebalanceError::ZeroTargetTotal => "Target allocations sum to zero".to_owned(),
            RebalanceError::Overflow => "An amount exceeds the range of a decimal".to_owned(),
        }
    }
}

} // verus!

//! Monthly contributions: what went into the portfolio, month by month.
//!
//! The net value of a month adds the total value of every purchase traded
//! in that month, takes away that of every sale, and adds the net amount of
//! every external cash movement dated in that month.

use vstd::prelude::*;
use crate::date::month_of;
use crate::decimal::{accumulate, deduct, zero_value, Amount, DecimalValue};
use crate::holdings::ValuationError;
use crate::models::{CashFlowEvent, TradingRecord, TransactionKind};
use crate::text::same_text;

verus! {

/// The net contribution of one calendar month, as it is stored.
#[derive(Clone, Debug)]
pub struct MonthlyContribution {
    pub month: String,
    pub net_value: Amount,
}

/// A month's net value after one trade.
pub open spec fn with_trade(net: Option<DecimalValue>, trade: TradingRecord, month: Seq<char>) -> Option<
    DecimalValue,
> {
    if month_of(trade.trade_day()) == month {
        match trade.kind() {
            TransactionKind::Buy => accumulate(net, trade.total_trade_value@),
            TransactionKind::Sell => deduct(net, trade.total_trade_value@),
            _ => net,
        }
    } else {
        net
    }
}

/// A month's net value after one cash movement.
pub open spec fn with_cash_flow(net: Option<DecimalValue>, flow: CashFlowEvent, month: Seq<char>) -> Option<
    DecimalValue,
> {
    if flow.class.external() && month_of(flow.date@) == month {
        accumulate(net, flow.amount@)
    } else {
        net
    }
}

/// The net value that the trades give a month, `None` on overflow.
pub open spec fn trade_net(trades: Seq<TradingRecord>, month: Seq<char>) -> Option<DecimalValue>
    decreases trades.len(),
{
    if trades.len() == 0 {
        Some(zero_value())
    } else {
        with_trade(trade_net(trades.drop_last(), month), trades.last(), month)
    }
}

/// The net value of a month: the trades first, then the cash movements,
/// each in ledger order. `None` on overflow.
pub open spec fn month_net(
    trades: Seq<TradingRecord>,
    flows: Seq<CashFlowEvent>,
    month: Seq<char>,
) -> Option<DecimalValue>
    decreases flows.len(),
{
    if flows.len() == 0 {
        trade_net(trades, month)
    } else {
        with_cash_flow(month_net(trades, flows.drop_last(), month), flows.last(), month)
    }
}

/// Whether a month is the month of one of the trades or of one of the
/// external cash movements.
pub open spec fn month_occurs(
    trades: Seq<TradingRecord>,
    flows: Seq<CashFlowEvent>,
    month: Seq<char>,
) -> bool {
    ||| exists|i: int| 0 <= i < trades.len() && month_of((#[trigger] trades[i]).trade_day()) == month
    ||| exists|i: int|
        0 <= i < flows.len() && (#[trigger] flows[i]).class.external() && month_of(flows[i].date@)
            == month
}

/// Whether the rows hold a month.
pub open spec fn lists_month(rows: Seq<MonthlyContribution>, month: Seq<char>) -> bool {
    exists|k: int| 0 <= k < rows.len() && (#[trigger] rows[k]).month@ == month
}

/// A month without trades has no net value from trades.
pub proof fn lemma_quiet_month_trades(trades: Seq<TradingRecord>, month: Seq<char>)
    requires
        forall|i: int| 0 <= i < trades.len() ==> month_of((#[trigger] trades[i]).trade_day()) != month,
    ensures
        trade_net(trades, month) == Some(zero_value()),
    decreases trades.len(),
{
    if trades.len() > 0 {
        assert(month_of(trades[trades.len() - 1].trade_day()) != month);
        assert forall|i: int| 0 <= i < trades.drop_last().len() implies month_of(
            (#[trigger] trades.drop_last()[i]).trade_day(),
        ) != month by {
            assert(trades.drop_last()[i] == trades[i]);
        }
        lemma_quiet_month_trades(trades.drop_last(), month);
    }
}

/// A month without external cash movements has the net value of its trades.
pub proof fn lemma_quiet_month_flows(
    trades: Seq<TradingRecord>,
    flows: Seq<CashFlowEvent>,
    month: Seq<char>,
)
    requires
        forall|i: int|
            0 <= i < flows.len() ==> !((#[trigger] flows[i]).class.external() && month_of(
                flows[i].date@,
            ) == month),
    ensures
        month_net(trades, flows, month) == trade_net(trades, month),
    decreases flows.len(),
{
    if flows.len() > 0 {
        let last = flows[flows.len() - 1];
        assert(!(last.class.external() && month_of(last.date@) == month));
        assert forall|i: int| 0 <= i < flows.drop_last().len() implies !((
        #[trigger] flows.drop_last()[i]).class.external() && month_of(flows.drop_last()[i].date@)
            == month) by {
            assert(flows.drop_last()[i] == flows[i]);
        }
        lemma_quiet_month_flows(trades, flows.drop_last(), month);
    }
}

/// A net value from trades that has overflowed stays overflowed.
pub proof fn lemma_trade_overflow_stays(trades: Seq<TradingRecord>, count: int, month: Seq<char>)
    requires
        0 <= count <= trades.len(),
        trade_net(trades.take(count), month) is None,
    ensures
        trade_net(trades, month) is None,
    decreases trades.len(),
{
    if trades.len() == count {
        assert(trades.take(count) == trades);
    } else {
        assert(trades.drop_last().take(count) == trades.take(count));
        lemma_trade_overflow_stays(trades.drop_last(), count, month);
    }
}

/// A net value that has overflowed stays overflowed.
pub proof fn lemma_net_overflow_stays(
    trades: Seq<TradingRecord>,
    flows: Seq<CashFlowEvent>,
    count: int,
    month: Seq<char>,
)
    requires
        0 <= count <= flows.len(),
        month_net(trades, flows.take(count), month) is None,
    ensures
        month_net(trades, flows, month) is None,
    decreases flows.len(),
{
    if flows.len() == count {
        assert(flows.take(count) == flows);
    } else {
        assert(flows.drop_last().take(count) == flows.take(count));
        lemma_net_overflow_stays(trades, flows.drop_last(), count, month);
    }
}

/// The position of a month among the rows.
fn find_month(rows: &Vec<MonthlyContribution>, month: &str) -> (r: Option<usize>)
    ensures
        match r {
            Some(k) => k < rows.len() && rows[k as int].month@ == month@,
            None => !lists_month(rows@, month@),
        },
{
    let mut k: usize = 0;
    while k < rows.len()
        invariant
            k <= rows.len(),
            forall|j: int| 0 <= j < k ==> (#[trigger] rows[j]).month@ != month@,
        decreases rows.len() - k,
    {
        if same_text(rows[k].month.as_str(), month) {
            return Some(k);
        }
        k += 1;
    }
    None
}

/// The net contribution of each month in which a trade or an external cash
/// movement falls, in the order in which the months first occur. Fails when
/// a month's net value overflows.
pub fn monthly_contributions(trades: &Vec<TradingRecord>, flows: &Vec<CashFlowEvent>) -> (r: Result<
    Vec<MonthlyContribution>,
    ValuationError,
>)
    ensures
        match r {
            Ok(rows) => {
                &&& forall|i: int, j: int|
                    0 <= i < j < rows.len() ==> (#[trigger] rows[i]).month@ != (
                    #[trigger] rows[j]).month@
                &&& forall|k: int|
                    0 <= k < rows.len() ==> month_occurs(trades@, flows@, (#[trigger] rows[k]).month@)
                        && Some(rows[k].net_value@) == month_net(trades@, flows@, rows[k].month@)
                &&& forall|month: Seq<char>|
                    month_occurs(trades@, flows@, month) ==> lists_month(rows@, month)
            },
            Err(_) => exists|month: Seq<char>| month_net(trades@, flows@, month) is None,
        },
{
    let mut rows: Vec<MonthlyContribution> = Vec::new();
    let mut i: usize = 0;
    assert(trades@.take(0) =~= Seq::empty());
    while i < trades.len()
        invariant
            i <= trades.len(),
            forall|a: int, b: int|
                0 <= a < b < rows.len() ==> (#[trigger] rows[a]).month@ != (#[trigger] rows[b]).month@,
            forall|k: int|
                0 <= k < rows.len() ==> Some((#[trigger] rows[k]).net_value@) == trade_net(
                    trades@.take(i as int),
                    rows[k].month@,
                ),
            forall|k: int|
                0 <= k < rows.len() ==> exists|j: int|
                    0 <= j < i && month_of((#[trigger] trades[j]).trade_day()) == (
                    #[trigger] rows[k]).month@,
            forall|j: int|
                0 <= j < i ==> lists_month(rows@, month_of((#[trigger] trades[j]).trade_day())),
        decreases trades.len() - i,
    {
        let ghost before = trades@.take(i as int);
        let ghost after = trades@.take(i + 1);
        let ghost old_rows = rows@;
        proof {
            assert(after.drop_last() == before);
            assert(after.last() == trades[i as int]);
        }
        let label = trades[i].trade_date_time.date().month_label();
        let at = match find_month(&rows, label.as_str()) {
            Some(k) => k,
            None => {
                proof {
                    assert forall|j: int| 0 <= j < before.len() implies month_of(
                        (#[trigger] before[j]).trade_day(),
                    ) != label@ by {
                        assert(before[j] == trades[j]);
                        assert(lists_month(rows@, month_of(trades[j].trade_day())));
                    }
                    lemma_quiet_month_trades(before, label@);
                }
                rows.push(MonthlyContribution { month: label.clone(), net_value: Amount::zero() });
                rows.len() - 1
            },
        };
        let ghost mid_rows = rows@;
        proof {
            assert(forall|k: int| 0 <= k < old_rows.len() ==> mid_rows[k] == old_rows[k]);
            assert(mid_rows[at as int].month@ == label@);
            assert(Some(mid_rows[at as int].net_value@) == trade_net(before, label@));
        }
        let net = rows[at].net_value;
        let value = trades[i].total_trade_value;
        let updated = match trades[i].transaction_kind() {
            TransactionKind::Buy => net.checked_add(value),
            TransactionKind::Sell => net.checked_sub(value),
            _ => Some(net),
        };
        match updated {
            Some(n) => {
                rows.set(at, MonthlyContribution { month: label, net_value: n });
            },
            None => {
                proof {
                    assert(trade_net(after, label@) is None);
                    lemma_trade_overflow_stays(trades@, i + 1, label@);
                    lemma_net_overflow_stays(trades@, flows@, 0, label@);
                }
                return Err(ValuationError::Overflow);
            },
        }
        proof {
            assert forall|k: int| 0 <= k < rows.len() implies (#[trigger] rows[k]).month@
                == mid_rows[k].month@ by {}
            assert forall|k: int| 0 <= k < rows.len() implies Some((#[trigger] rows[k]).net_value@)
                == trade_net(after, rows[k].month@) by {
                if k != at {
                    assert(rows[k] == mid_rows[k]);
                    assert(mid_rows[k].month@ != mid_rows[at as int].month@);
                    if k < old_rows.len() {
                        assert(mid_rows[k] == old_rows[k]);
                    }
                }
            }
            assert forall|k: int| 0 <= k < rows.len() implies exists|j: int|
                0 <= j < i + 1 && month_of((#[trigger] trades[j]).trade_day()) == (
                #[trigger] rows[k]).month@ by {
                if k < old_rows.len() {
                    assert(rows[k].month@ == old_rows[k].month@);
                    let j = choose|j: int|
                        0 <= j < i && month_of((#[trigger] trades[j]).trade_day())
                            == old_rows[k].month@;
                    assert(month_of(trades[j].trade_day()) == rows[k].month@);
                } else {
                    assert(month_of(trades[i as int].trade_day()) == rows[k].month@);
                }
            }
            assert forall|j: int| 0 <= j < i + 1 implies lists_month(
                rows@,
                month_of((#[trigger] trades[j]).trade_day()),
            ) by {
                if j < i {
                    let m = month_of(trades[j].trade_day());
                    assert(lists_month(old_rows, m));
                    let k = choose|k: int| 0 <= k < old_rows.len() && (#[trigger] old_rows[k]).month@ == m;
                    assert(rows[k].month@ == m);
                } else {
                    assert(rows[at as int].month@ == label@);
                }
            }
        }
        i += 1;
    }
    proof {
        assert(trades@.take(trades.len() as int) == trades@);
        assert(flows@.take(0) =~= Seq::empty());
    }
    let mut f: usize = 0;
    while f < flows.len()
        invariant
            f <= flows.len(),
            forall|a: int, b: int|
                0 <= a < b < rows.len() ==> (#[trigger] rows[a]).month@ != (#[trigger] rows[b]).month@,
            forall|k: int|
                0 <= k < rows.len() ==> Some((#[trigger] rows[k]).net_value@) == month_net(
                    trades@,
                    flows@.take(f as int),
                    rows[k].month@,
                ),
            forall|k: int|
                0 <= k < rows.len() ==> month_occurs(
                    trades@,
                    flows@.take(f as int),
                    (#[trigger] rows[k]).month@,
                ),
            forall|month: Seq<char>|
                month_occurs(trades@, flows@.take(f as int), month) ==> lists_month(rows@, month),
        decreases flows.len() - f,
    {
        let ghost before = flows@.take(f as int);
        let ghost after = flows@.take(f + 1);
        let ghost old_rows = rows@;
        proof {
            assert(after.drop_last() == before);
            assert(after.last() == flows[f as int]);
            assert forall|month: Seq<char>| month_occurs(trades@, before, month) implies month_occurs(
                trades@,
                after,
                month,
            ) by {
                if !(exists|i: int|
                    0 <= i < trades.len() && month_of((#[trigger] trades[i]).trade_day()) == month) {
                    let j = choose|j: int|
                        0 <= j < before.len() && (#[trigger] before[j]).class.external() && month_of(
                            before[j].date@,
                        ) == month;
                    assert(after[j] == before[j]);
                }
            }
        }
        let flow = flows[f];
        if flow.class.is_external() {
            let label = flow.date.month_label();
            let at = match find_month(&rows, label.as_str()) {
                Some(k) => k,
                None => {
                    proof {
                        assert(!month_occurs(trades@, before, label@));
                        lemma_quiet_month_trades(trades@, label@);
                        lemma_quiet_month_flows(trades@, before, label@);
                    }
                    rows.push(
                        MonthlyContribution { month: label.clone(), net_value: Amount::zero() },
                    );
                    rows.len() - 1
                },
            };
            let ghost mid_rows = rows@;
            proof {
                assert(forall|k: int| 0 <= k < old_rows.len() ==> mid_rows[k] == old_rows[k]);
                assert(Some(mid_rows[at as int].net_value@) == month_net(trades@, before, label@));
            }
            match rows[at].net_value.checked_add(flow.amount) {
                Some(n) => {
                    rows.set(at, MonthlyContribution { month: label, net_value: n });
                },
                None => {
                    proof {
                        assert(month_net(trades@, after, label@) is None);
                        lemma_net_overflow_stays(trades@, flows@, f + 1, label@);
                    }
                    return Err(ValuationError::Overflow);
                },
            }
            proof {
                assert forall|k: int| 0 <= k < rows.len() implies Some(
                    (#[trigger] rows[k]).net_value@,
                ) == month_net(trades@, after, rows[k].month@) by {
                    if k != at {
                        assert(rows[k] == mid_rows[k]);
                        assert(mid_rows[k].month@ != mid_rows[at as int].month@);
                        if k < old_rows.len() {
                            assert(mid_rows[k] == old_rows[k]);
                        }
                    }
                }
                assert forall|k: int| 0 <= k < rows.len() implies month_occurs(
                    trades@,
                    after,
                    (#[trigger] rows[k]).month@,
                ) by {
                    if k < old_rows.len() {
                        assert(rows[k].month@ == old_rows[k].month@);
                        assert(month_occurs(trades@, before, old_rows[k].month@));
                    } else {
                        assert(after[f as int].class.external() && month_of(after[f as int].date@)
                            == rows[k].month@);
                    }
                }
                assert forall|month: Seq<char>| month_occurs(trades@, after, month) implies lists_month(
                    rows@,
                    month,
                ) by {
                    if month == label@ {
                        assert(rows[at as int].month@ == month);
                    } else {
                        if !(exists|i: int|
                            0 <= i < trades.len() && month_of((#[trigger] trades[i]).trade_day())
                                == month) {
                            let j = choose|j: int|
                                0 <= j < after.len() && (#[trigger] after[j]).class.external()
                                    && month_of(after[j].date@) == month;
                            assert(j < f);
                            assert(before[j] == after[j]);
                        }
                        assert(month_occurs(trades@, before, month));
                        assert(lists_month(old_rows, month));
                        let k = choose|k: int|
                            0 <= k < old_rows.len() && (#[trigger] old_rows[k]).month@ == month;
                        assert(rows[k].month@ == month);
                    }
                }
            }
        } else {
            proof {
                assert forall|month: Seq<char>| month_occurs(trades@, after, month) implies month_occurs(
                    trades@,
                    before,
                    month,
                ) by {
                    if !(exists|i: int|
                        0 <= i < trades.len() && month_of((#[trigger] trades[i]).trade_day())
                            == month) {
                        let j = choose|j: int|
                            0 <= j < after.len() && (#[trigger] after[j]).class.external() && month_of(
                                after[j].date@,
                            ) == month;
                        assert(j < f);
                        assert(before[j] == after[j]);
                    }
                }
            }
        }
        f += 1;
    }
    proof {
        assert(flows@.take(flows.len() as int) == flows@);
    }
    Ok(rows)
}

} // verus!

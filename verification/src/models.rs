//! The ledger records: trades and cash movements.

use vstd::prelude::*;
use crate::date::{Date, DateTime};
use crate::decimal::{difference_of, value_of, zero_value, Amount, DecimalValue};
use crate::text::{contains, contains_text, to_uppercase, uppercase};

verus! {

/// What a trade does to a holding.
#[derive(Clone, Copy, Debug, PartialEq, Eq, Structural)]
pub enum TransactionKind {
    Buy,
    Sell,
    DividendReinvestment,
    Other,
}

/// The kind of a cash movement, as far as the portfolio's performance goes.
#[derive(Clone, Copy, Debug, PartialEq, Eq, Structural)]
pub enum CashFlowClass {
    PaymentReceived,
    Withdrawal,
    IsaTransferIn,
    Other,
}

/// One line of a trading statement.
#[derive(Clone, Debug)]
pub struct TradingRecord {
    pub security_isin: String,
    pub transaction_type: String,
    pub quantity: Amount,
    pub share_price: Amount,
    pub total_trade_value: Amount,
    pub trade_date_time: DateTime,
    pub settlement_date: DateTime,
    pub broker: String,
    pub account_type: String,
    pub ticker: Option<String>,
}

/// One line of a cash statement.
#[derive(Clone, Debug)]
pub struct CashRecord {
    pub date: Date,
    pub activity: String,
    pub credit: Option<Amount>,
    pub debit: Option<Amount>,
    pub balance: Amount,
    pub account_type: String,
    pub net_flow: Amount,
}

/// A cash movement between the investor and the portfolio: positive into the
/// portfolio.
#[derive(Clone, Copy, Debug)]
pub struct CashFlowEvent {
    pub date: Date,
    pub amount: Amount,
    pub class: CashFlowClass,
}

/// The kind that a statement's transaction type stands for. The text is
/// compared in upper case; `BUY` wins over `DIVIDEND REINVESTMENT`, which wins
/// over `SELL`.
pub open spec fn transaction_kind_of(transaction_type: Seq<char>) -> TransactionKind {
    let upper = uppercase(transaction_type);
    if contains_text(upper, "BUY"@) {
        TransactionKind::Buy
    } else if contains_text(upper, "DIVIDEND REINVESTMENT"@) {
        TransactionKind::DividendReinvestment
    } else if contains_text(upper, "SELL"@) {
        TransactionKind::Sell
    } else {
        TransactionKind::Other
    }
}

/// The class that a statement's activity text stands for.
pub open spec fn cash_flow_class_of(activity: Seq<char>) -> CashFlowClass {
    let upper = uppercase(activity);
    if contains_text(upper, "PAYMENT RECEIVED"@) {
        CashFlowClass::PaymentReceived
    } else if contains_text(upper, "WITHDRAWAL"@) {
        CashFlowClass::Withdrawal
    } else if contains_text(upper, "ISA TRANSFER IN"@) {
        CashFlowClass::IsaTransferIn
    } else {
        CashFlowClass::Other
    }
}

/// The value of an optional amount, zero when there is none.
pub open spec fn value_or_zero(amount: Option<Amount>) -> DecimalValue {
    match amount {
        Some(a) => a@,
        None => zero_value(),
    }
}

/// Credit less debit, each zero when the statement leaves it empty.
pub open spec fn net_flow_of(credit: Option<Amount>, debit: Option<Amount>) -> Option<DecimalValue> {
    difference_of(value_or_zero(credit), value_or_zero(debit))
}

/// Decides the kind of a transaction from its type as the statement words it.
pub fn classify_transaction(transaction_type: &str) -> (k: TransactionKind)
    ensures
        k == transaction_kind_of(transaction_type@),
{
    let upper = to_uppercase(transaction_type);
    if contains(upper.as_str(), "BUY") {
        TransactionKind::Buy
    } else if contains(upper.as_str(), "DIVIDEND REINVESTMENT") {
        TransactionKind::DividendReinvestment
    } else if contains(upper.as_str(), "SELL") {
        TransactionKind::Sell
    } else {
        TransactionKind::Other
    }
}

/// Decides the class of a cash movement from its activity as the statement
/// words it.
pub fn classify_activity(activity: &str) -> (c: CashFlowClass)
    ensures
        c == cash_flow_class_of(activity@),
{
    let upper = to_uppercase(activity);
    if contains(upper.as_str(), "PAYMENT RECEIVED") {
        CashFlowClass::PaymentReceived
    } else if contains(upper.as_str(), "WITHDRAWAL") {
        CashFlowClass::Withdrawal
    } else if contains(upper.as_str(), "ISA TRANSFER IN") {
        CashFlowClass::IsaTransferIn
    } else {
        CashFlowClass::Other
    }
}

/// Credit less debit, or `None` when the difference overflows.
pub fn net_flow(credit: Option<Amount>, debit: Option<Amount>) -> (r: Option<Amount>)
    ensures
        value_of(r) == net_flow_of(credit, debit),
{
    let c = match credit {
        Some(a) => a,
        None => Amount::zero(),
    };
    let d = match debit {
        Some(a) => a,
        None => Amount::zero(),
    };
    c.checked_sub(d)
}

impl CashFlowClass {
    /// Whether money of this class crosses the portfolio's boundary.
    pub open spec fn external(self) -> bool {
        self != CashFlowClass::Other
    }

    /// Whether money of this class crosses the portfolio's boundary.
    pub fn is_external(&self) -> (b: bool)
        ensures
            b == self.external(),
    {
        match self {
            CashFlowClass::Other => false,
            _ => true,
        }
    }
}

impl TradingRecord {
    /// What the trade does to a holding.
    pub open spec fn kind(&self) -> TransactionKind {
        transaction_kind_of(self.transaction_type@)
    }

    /// The day number of the trade.
    pub open spec fn trade_day(&self) -> int {
        self.trade_date_time@.day
    }

    /// Whether the trade is in the security with the given ticker.
    pub open spec fn is_for(&self, ticker: Seq<char>) -> bool {
        self.ticker matches Some(t) && t@ == ticker
    }

    /// What the trade does to a holding.
    pub fn transaction_kind(&self) -> (k: TransactionKind)
        ensures
            k == self.kind(),
    {
        classify_transaction(self.transaction_type.as_str())
    }
}

impl CashRecord {
    /// The class of the movement.
    pub open spec fn class(&self) -> CashFlowClass {
        cash_flow_class_of(self.activity@)
    }

    /// The movement as a cash-flow event: its date, its net flow and its class.
    pub fn event(&self) -> (e: CashFlowEvent)
        ensures
            e.date == self.date,
            e.amount == self.net_flow,
            e.class == self.class(),
    {
        CashFlowEvent {
            date: self.date,
            amount: self.net_flow,
            class: classify_activity(self.activity.as_str()),
        }
    }
}

} // verus!

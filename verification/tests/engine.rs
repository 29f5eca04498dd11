use chrono::{Datelike, NaiveDate};
use investengine_csv_server_rs::background_processor::{
    compute_portfolio, date_grid, external_flows, fx_tickers_needed, ledger_scope, lookback_start,
};
use investengine_csv_server_rs::contributions::monthly_contributions;
use investengine_csv_server_rs::date::{Date, DateTime, MIN_DAY};
use investengine_csv_server_rs::decimal::{Amount, MAX_MANTISSA};
use investengine_csv_server_rs::holdings::{simulate_holdings, sort_trades, ValuationError};
use investengine_csv_server_rs::models::{
    classify_activity, classify_transaction, net_flow, CashFlowClass, CashFlowEvent, CashRecord,
    TradingRecord, TransactionKind,
};
use investengine_csv_server_rs::portfolio_stats::{
    calculate_portfolio_stats, net_flow_of_day, twr_periods, xirr_schedule,
};
use investengine_csv_server_rs::prices::{
    converted_prices, ConvertedPrice, CurrencyConverter, PriceBook, PriceObservation,
};
use investengine_csv_server_rs::valuation::{
    daily_values, portfolio_value_rows, ticker_price_rows, ticker_value_rows, value_portfolio,
};
use rust_decimal::Decimal;
use std::str::FromStr;

fn amt(text: &str) -> Amount {
    let d = Decimal::from_str(text).unwrap();
    Amount::new(d.mantissa(), d.scale()).unwrap()
}

fn dec(a: Amount) -> Decimal {
    Decimal::from_i128_with_scale(a.mantissa(), a.scale())
}

fn number(text: &str) -> Decimal {
    Decimal::from_str(text).unwrap()
}

fn day(y: i32, m: u32, d: u32) -> Date {
    Date::from_day_number(NaiveDate::from_ymd_opt(y, m, d).unwrap().num_days_from_ce()).unwrap()
}

fn trade_at(ticker: Option<&str>, kind: &str, quantity: &str, value: &str, date: Date, second: u32) -> TradingRecord {
    TradingRecord {
        security_isin: "IE00BK5BQT80".to_string(),
        transaction_type: kind.to_string(),
        quantity: amt(quantity),
        share_price: amt("1"),
        total_trade_value: amt(value),
        trade_date_time: DateTime::new(date, second).unwrap(),
        settlement_date: DateTime::at_midnight(date),
        broker: "Broker".to_string(),
        account_type: "ISA".to_string(),
        ticker: ticker.map(|t| t.to_string()),
    }
}

fn trade(ticker: &str, kind: &str, quantity: &str, value: &str, date: Date) -> TradingRecord {
    trade_at(Some(ticker), kind, quantity, value, date, 0)
}

fn flow(date: Date, amount: &str, class: CashFlowClass) -> CashFlowEvent {
    CashFlowEvent { date, amount: amt(amount), class }
}

fn seen(date: Date, price: &str, currency: &str) -> PriceObservation {
    PriceObservation { date, price: amt(price), currency: currency.to_string() }
}

fn names(list: &[&str]) -> Vec<String> {
    list.iter().map(|s| s.to_string()).collect()
}

fn xirr(offsets: &[i64], amounts: &[f64]) -> f64 {
    let mut rate: f64 = 0.1;
    for _ in 0..100 {
        if rate <= -1.0 {
            rate = -0.99;
        }
        let base = 1.0 + rate;
        let mut f = 0.0;
        let mut df = 0.0;
        for i in 0..amounts.len() {
            let years = offsets[i] as f64 / 365.25;
            let factor = base.powf(-years);
            f += amounts[i] * factor;
            df += amounts[i] * -years * factor / base;
        }
        if f.abs() < 1e-6 || df.abs() < 1e-9 {
            return rate;
        }
        rate -= f / df;
    }
    rate
}

#[test]
fn transaction_types_are_classified_by_their_words() {
    assert_eq!(classify_transaction("Buy"), TransactionKind::Buy);
    assert_eq!(classify_transaction("market buy order"), TransactionKind::Buy);
    assert_eq!(classify_transaction("SELL"), TransactionKind::Sell);
    assert_eq!(classify_transaction("Dividend Reinvestment"), TransactionKind::DividendReinvestment);
    assert_eq!(classify_transaction("dividend reinvestment (buy)"), TransactionKind::Buy);
    assert_eq!(classify_transaction("Dividend reinvestment sell"), TransactionKind::DividendReinvestment);
    assert_eq!(classify_transaction("Transfer"), TransactionKind::Other);
    assert_eq!(classify_transaction(""), TransactionKind::Other);
    assert_eq!(trade("T", "Sell", "1", "1", day(2024, 1, 1)).transaction_kind(), TransactionKind::Sell);
}

#[test]
fn activities_are_classified_by_their_words() {
    assert_eq!(classify_activity("Payment Received"), CashFlowClass::PaymentReceived);
    assert_eq!(classify_activity("payment received - thank you"), CashFlowClass::PaymentReceived);
    assert_eq!(classify_activity("Withdrawal"), CashFlowClass::Withdrawal);
    assert_eq!(classify_activity("ISA Transfer In"), CashFlowClass::IsaTransferIn);
    assert_eq!(classify_activity("Dividend"), CashFlowClass::Other);
    assert!(CashFlowClass::Withdrawal.is_external());
    assert!(CashFlowClass::PaymentReceived.is_external());
    assert!(CashFlowClass::IsaTransferIn.is_external());
    assert!(!CashFlowClass::Other.is_external());
}

#[test]
fn net_flow_is_credit_less_debit() {
    assert_eq!(dec(net_flow(Some(amt("100.50")), Some(amt("0.50"))).unwrap()), number("100"));
    assert_eq!(dec(net_flow(None, Some(amt("20"))).unwrap()), number("-20"));
    assert_eq!(dec(net_flow(Some(amt("20")), None).unwrap()), number("20"));
    assert!(net_flow(None, None).unwrap().is_zero());
    let max = Amount::new(MAX_MANTISSA, 0).unwrap();
    assert!(net_flow(Some(max), Some(max.negate())).is_none());
    let record = CashRecord {
        date: day(2024, 3, 5),
        activity: "Withdrawal to bank".to_string(),
        credit: None,
        debit: Some(amt("200")),
        balance: amt("10"),
        account_type: "GIA".to_string(),
        net_flow: amt("-200"),
    };
    let event = record.event();
    assert_eq!(event.class, CashFlowClass::Withdrawal);
    assert_eq!(dec(event.amount), number("-200"));
    assert_eq!(event.date.day_number(), day(2024, 3, 5).day_number());
}

#[test]
fn holdings_follow_the_trades_up_to_each_date() {
    let trades = vec![
        trade("VWRP.L", "Buy", "10", "1000", day(2024, 1, 1)),
        trade("VWRP.L", "Sell", "4", "400", day(2024, 1, 10)),
    ];
    let dates = vec![day(2023, 12, 31), day(2024, 1, 5), day(2024, 1, 15)];
    let rows = simulate_holdings(&trades, &names(&["VWRP.L"]), &dates).unwrap();
    assert_eq!(rows.len(), 3);
    assert!(rows[0][0].is_zero());
    assert_eq!(dec(rows[1][0]), number("10"));
    assert_eq!(dec(rows[2][0]), number("6"));
}

#[test]
fn holdings_include_the_trades_of_the_date_itself() {
    let trades = vec![
        trade("A", "Buy", "1", "1", day(2024, 1, 2)),
        trade_at(Some("A"), "Dividend Reinvestment", "0.5", "1", day(2024, 1, 2), 3600),
        trade("B", "Buy", "7", "1", day(2024, 1, 2)),
        trade_at(None, "Buy", "100", "1", day(2024, 1, 2), 0),
        trade("A", "Fee", "3", "1", day(2024, 1, 3)),
        trade("C", "Buy", "9", "1", day(2024, 1, 3)),
        trade("B", "Sell", "10", "1", day(2024, 1, 4)),
    ];
    let dates = vec![day(2024, 1, 1), day(2024, 1, 2), day(2024, 1, 3), day(2024, 1, 4)];
    let rows = simulate_holdings(&trades, &names(&["A", "B"]), &dates).unwrap();
    assert!(rows[0][0].is_zero() && rows[0][1].is_zero());
    assert_eq!(dec(rows[1][0]), number("1.5"));
    assert_eq!(dec(rows[1][1]), number("7"));
    assert_eq!(dec(rows[2][0]), number("1.5"));
    assert_eq!(dec(rows[3][1]), number("-3"));
    assert_eq!(rows[3].len(), 2);
}

#[test]
fn holdings_without_dates_or_tickers() {
    let trades = vec![trade("A", "Buy", "1", "1", day(2024, 1, 2))];
    assert_eq!(simulate_holdings(&trades, &names(&["A"]), &vec![]).unwrap().len(), 0);
    let rows = simulate_holdings(&trades, &vec![], &vec![day(2024, 1, 2)]).unwrap();
    assert_eq!(rows.len(), 1);
    assert_eq!(rows[0].len(), 0);
    let rows = simulate_holdings(&vec![], &names(&["A"]), &vec![day(2024, 1, 2)]).unwrap();
    assert!(rows[0][0].is_zero());
}

#[test]
fn holdings_that_overflow_are_an_error() {
    let max = Decimal::MAX.to_string();
    let trades = vec![
        trade("A", "Buy", &max, "1", day(2024, 1, 2)),
        trade("A", "Buy", &max, "1", day(2024, 1, 3)),
    ];
    let early = simulate_holdings(&trades, &names(&["A"]), &vec![day(2024, 1, 2)]);
    assert!(early.is_ok());
    let late = simulate_holdings(&trades, &names(&["A"]), &vec![day(2024, 1, 2), day(2024, 1, 3)]);
    assert_eq!(late.err(), Some(ValuationError::Overflow));
}

#[test]
fn trades_are_sorted_by_time_and_keep_their_order_within_a_time() {
    let d = day(2024, 1, 2);
    let trades = vec![
        trade_at(Some("late"), "Buy", "1", "1", d, 50_000),
        trade_at(Some("first-of-two"), "Buy", "2", "1", d, 100),
        trade_at(Some("early"), "Buy", "3", "1", day(2024, 1, 1), 86_399),
        trade_at(Some("second-of-two"), "Buy", "4", "1", d, 100),
        trade_at(Some("midnight"), "Buy", "5", "1", d, 0),
    ];
    let sorted = sort_trades(trades);
    let order: Vec<String> = sorted.iter().map(|t| t.ticker.clone().unwrap()).collect();
    assert_eq!(order, names(&["early", "midnight", "first-of-two", "second-of-two", "late"]));
    assert_eq!(sort_trades(vec![]).len(), 0);
}

#[test]
fn values_are_holdings_times_prices() {
    let holdings = vec![vec![amt("10"), amt("0")], vec![amt("6"), amt("2.5")]];
    let price = |o: &str, c: &str| ConvertedPrice { original: amt(o), converted: amt(c) };
    let prices = vec![vec![price("1", "1.5"), price("1", "2")], vec![price("9", "9"), price("4", "4")]];
    let v = daily_values(&holdings, &prices).unwrap();
    assert_eq!(dec(v.values[0][0]), number("15"));
    assert!(v.values[0][1].is_zero());
    assert_eq!(dec(v.values[1][0]), number("12"));
    assert_eq!(dec(v.values[1][1]), number("10"));
    assert_eq!(dec(v.totals[0]), number("15"));
    assert_eq!(dec(v.totals[1]), number("22"));
    let max = Amount::new(MAX_MANTISSA, 0).unwrap();
    let too_much = daily_values(&vec![vec![max]], &vec![vec![price("2", "2")]]);
    assert_eq!(too_much.err(), Some(ValuationError::Overflow));
    let sum_too_much = daily_values(&vec![vec![max, max]], &vec![vec![price("1", "1")], vec![price("1", "1")]]);
    assert_eq!(sum_too_much.err(), Some(ValuationError::Overflow));
    let empty = daily_values(&vec![], &vec![]).unwrap();
    assert_eq!(empty.values.len(), 0);
}

#[test]
fn value_is_zero_without_a_price_and_the_product_with_one() {
    let d = day(2024, 5, 10);
    let trades = vec![trade("A", "Buy", "3", "30", d), trade("B", "Buy", "5", "50", d)];
    let mut book = PriceBook::new();
    book.record("A", &vec![seen(day(2024, 5, 8), "12.5", "GBP")]);
    let converter = CurrencyConverter::new();
    let dates = vec![d, day(2024, 12, 1)];
    let v = value_portfolio(&trades, &names(&["A", "B"]), &dates, &book, &converter).unwrap();
    assert_eq!(dec(v.daily.values[0][0]), number("37.5"));
    assert!(v.daily.values[0][1].is_zero());
    assert_eq!(dec(v.daily.totals[0]), number("37.5"));
    assert!(v.daily.values[1][0].is_zero());
    assert!(v.daily.totals[1].is_zero());
    assert_eq!(dec(v.prices[0][0].original), number("12.5"));
    assert!(v.prices[1][0].original.is_zero());
}

#[test]
fn every_ticker_has_a_row_on_every_date() {
    let dates = vec![day(2024, 1, 1), day(2024, 1, 2), day(2024, 1, 3)];
    let tickers = names(&["A", "B"]);
    let values = vec![vec![amt("1"), amt("0")], vec![amt("2"), amt("0")], vec![amt("3"), amt("0")]];
    let rows = ticker_value_rows(&dates, &tickers, &values);
    assert_eq!(rows.len(), 6);
    for d in 0..3 {
        for t in 0..2 {
            let row = &rows[d * 2 + t];
            assert_eq!(row.date.day_number(), dates[d].day_number());
            assert_eq!(row.ticker, tickers[t]);
            assert_eq!(dec(row.value), dec(values[d][t]));
        }
    }
    let totals = portfolio_value_rows(&dates, &vec![amt("1"), amt("2"), amt("3")]);
    assert_eq!(totals.len(), 3);
    assert_eq!(dec(totals[2].value), number("3"));
    assert_eq!(totals[2].date.day_number(), dates[2].day_number());
}

#[test]
fn price_rows_leave_out_dates_without_a_price() {
    let dates = vec![day(2024, 1, 1), day(2024, 1, 2), day(2024, 1, 3)];
    let price = |o: &str, c: &str| ConvertedPrice { original: amt(o), converted: amt(c) };
    let prices = vec![price("0", "0"), price("100", "80"), price("0.00", "5")];
    let rows = ticker_price_rows("US", "USD", &dates, &prices);
    assert_eq!(rows.len(), 1);
    assert_eq!(rows[0].ticker, "US");
    assert_eq!(rows[0].currency, "USD");
    assert_eq!(rows[0].date.day_number(), dates[1].day_number());
    assert_eq!(dec(rows[0].original_price), number("100"));
    assert_eq!(dec(rows[0].converted_price), number("80"));
}

#[test]
fn monthly_net_merges_trades_and_external_cash() {
    let trades = vec![
        trade("A", "Buy", "1", "600", day(2024, 3, 4)),
        trade("B", "Buy", "1", "400", day(2024, 3, 28)),
    ];
    let flows = vec![flow(day(2024, 3, 15), "-200", CashFlowClass::Withdrawal)];
    let rows = monthly_contributions(&trades, &flows).unwrap();
    assert_eq!(rows.len(), 1);
    assert_eq!(rows[0].month, "2024-03");
    assert_eq!(dec(rows[0].net_value), number("800"));
}

#[test]
fn monthly_net_by_month_and_kind() {
    let trades = vec![
        trade("A", "Buy", "1", "100", day(2024, 1, 31)),
        trade("A", "Sell", "1", "30", day(2024, 2, 1)),
        trade("A", "Dividend Reinvestment", "1", "5", day(2024, 2, 2)),
        trade("A", "Buy", "1", "50", day(2024, 1, 1)),
        trade("A", "Fee", "1", "1", day(2024, 4, 1)),
    ];
    let flows = vec![
        flow(day(2024, 2, 10), "20", CashFlowClass::PaymentReceived),
        flow(day(2024, 2, 11), "1000", CashFlowClass::Other),
        flow(day(2024, 5, 1), "7", CashFlowClass::IsaTransferIn),
        flow(day(2024, 6, 1), "9", CashFlowClass::Other),
    ];
    let rows = monthly_contributions(&trades, &flows).unwrap();
    let found: Vec<(String, Decimal)> = rows.iter().map(|r| (r.month.clone(), dec(r.net_value))).collect();
    assert_eq!(
        found,
        vec![
            ("2024-01".to_string(), number("150")),
            ("2024-02".to_string(), number("-10")),
            ("2024-04".to_string(), number("0")),
            ("2024-05".to_string(), number("7")),
        ]
    );
    assert_eq!(monthly_contributions(&vec![], &vec![]).unwrap().len(), 0);
    let max = Decimal::MAX.to_string();
    let too_much = vec![
        trade("A", "Buy", "1", &max, day(2024, 1, 1)),
        trade("A", "Buy", "1", &max, day(2024, 1, 2)),
    ];
    assert_eq!(monthly_contributions(&too_much, &vec![]).err(), Some(ValuationError::Overflow));
}

#[test]
fn stats_total_what_went_in_and_out() {
    let flows = vec![
        flow(day(2023, 1, 1), "1000", CashFlowClass::PaymentReceived),
        flow(day(2023, 6, 1), "-200", CashFlowClass::Withdrawal),
        flow(day(2023, 7, 1), "500", CashFlowClass::IsaTransferIn),
        flow(day(2023, 8, 1), "0", CashFlowClass::PaymentReceived),
    ];
    let stats = calculate_portfolio_stats(&flows, amt("1600"), day(2024, 1, 1)).unwrap();
    assert_eq!(dec(stats.total_invested), number("1500"));
    assert_eq!(dec(stats.total_withdrawn), number("200"));
    assert_eq!(dec(stats.current_value), number("1600"));
    assert_eq!(dec(stats.profit_loss), number("300"));
    assert_eq!(dec(stats.return_percentage), number("0.2"));
    assert_eq!(stats.calc_date.day_number(), day(2024, 1, 1).day_number());
}

#[test]
fn stats_without_investment_have_no_return() {
    let flows = vec![flow(day(2023, 6, 1), "-200", CashFlowClass::Withdrawal)];
    let stats = calculate_portfolio_stats(&flows, amt("50"), day(2024, 1, 1)).unwrap();
    assert!(stats.total_invested.is_zero());
    assert_eq!(dec(stats.total_withdrawn), number("200"));
    assert_eq!(dec(stats.profit_loss), number("250"));
    assert!(stats.return_percentage.is_zero());
    let none = calculate_portfolio_stats(&vec![], amt("0"), day(2024, 1, 1)).unwrap();
    assert!(none.profit_loss.is_zero() && none.return_percentage.is_zero());
    let max = Decimal::MAX.to_string();
    let too_much = vec![
        flow(day(2023, 6, 1), &max, CashFlowClass::PaymentReceived),
        flow(day(2023, 6, 2), &max, CashFlowClass::PaymentReceived),
    ];
    assert_eq!(
        calculate_portfolio_stats(&too_much, amt("1"), day(2024, 1, 1)).err(),
        Some(ValuationError::Overflow)
    );
}

#[test]
fn xirr_of_one_year_at_ten_percent() {
    let start = day(2023, 1, 1);
    let end = Date::from_day_number(start.day_number() + 365).unwrap();
    let flows = vec![flow(start, "1000", CashFlowClass::PaymentReceived)];
    let schedule = xirr_schedule(&flows, amt("1100"), end).unwrap();
    assert_eq!(schedule.day_offsets, vec![0, 365]);
    let amounts: Vec<Decimal> = schedule.amounts.iter().map(|a| dec(*a)).collect();
    assert_eq!(amounts, vec![number("-1000"), number("1100")]);
    let rate = xirr(&schedule.day_offsets, &[-1000.0, 1100.0]);
    assert!((rate - 0.10).abs() < 1e-3);
    assert!((rate - (1.1f64.powf(365.25 / 365.0) - 1.0)).abs() < 1e-4);
}

#[test]
fn xirr_needs_two_flows_of_opposite_sign() {
    let d = day(2024, 1, 1);
    assert!(xirr_schedule(&vec![], amt("100"), d).is_none());
    assert!(xirr_schedule(&vec![], amt("0"), d).is_none());
    let withdrawn = vec![flow(day(2023, 1, 1), "-50", CashFlowClass::Withdrawal)];
    assert!(xirr_schedule(&withdrawn, amt("100"), d).is_none());
    let paid = vec![flow(day(2023, 1, 1), "50", CashFlowClass::PaymentReceived)];
    assert!(xirr_schedule(&paid, amt("0"), d).is_none());
    assert!(xirr_schedule(&paid, amt("100"), d).is_some());
    let zero = vec![flow(day(2023, 1, 1), "0", CashFlowClass::PaymentReceived)];
    assert!(xirr_schedule(&zero, amt("100"), d).is_none());
}

#[test]
fn xirr_flows_are_put_in_the_order_of_their_dates() {
    let flows = vec![
        flow(day(2023, 3, 1), "30", CashFlowClass::PaymentReceived),
        flow(day(2023, 1, 1), "10", CashFlowClass::PaymentReceived),
        flow(day(2023, 3, 1), "-5", CashFlowClass::Withdrawal),
        flow(day(2024, 1, 1), "7", CashFlowClass::PaymentReceived),
    ];
    let schedule = xirr_schedule(&flows, amt("100"), day(2023, 6, 1)).unwrap();
    assert_eq!(schedule.day_offsets, vec![0, 59, 59, 151, 365]);
    let amounts: Vec<Decimal> = schedule.amounts.iter().map(|a| dec(*a)).collect();
    assert_eq!(
        amounts,
        vec![number("-10"), number("-30"), number("5"), number("100"), number("-7")]
    );
}

#[test]
fn doubling_between_two_dates_is_a_factor_of_two() {
    let dates = vec![day(2024, 1, 1), day(2024, 1, 2)];
    let values = vec![amt("100"), amt("200")];
    let periods = twr_periods(&dates, &values, &vec![], day(2024, 1, 2)).unwrap();
    assert_eq!(periods.break_count, 2);
    assert_eq!(periods.elapsed_days, 1);
    assert_eq!(periods.factors.len(), 1);
    assert_eq!(dec(periods.factors[0]), number("2"));
    assert_eq!(dec(periods.factors[0]) - Decimal::ONE, number("1.0"));
}

#[test]
fn sub_periods_break_at_cash_flows() {
    let dates: Vec<Date> = (1..=6).map(|d| day(2024, 1, d)).collect();
    let values = vec![amt("100"), amt("110"), amt("220"), amt("0"), amt("50"), amt("60")];
    let flows = vec![
        flow(day(2024, 1, 3), "60", CashFlowClass::PaymentReceived),
        flow(day(2024, 1, 3), "40", CashFlowClass::PaymentReceived),
        flow(day(2024, 1, 4), "10", CashFlowClass::PaymentReceived),
        flow(day(2024, 1, 4), "-10", CashFlowClass::Withdrawal),
        flow(day(2024, 1, 5), "-170", CashFlowClass::Withdrawal),
        flow(day(2023, 12, 1), "5", CashFlowClass::PaymentReceived),
    ];
    let periods = twr_periods(&dates, &values, &flows, day(2024, 1, 6)).unwrap();
    assert_eq!(periods.break_count, 4);
    assert_eq!(periods.elapsed_days, 5);
    let factors: Vec<Decimal> = periods.factors.iter().map(|f| dec(*f)).collect();
    assert_eq!(factors, vec![number("1.2"), number("1"), number("1.2")]);
    assert_eq!(dec(net_flow_of_day(&flows, day(2024, 1, 3)).unwrap()), number("100"));
    assert!(net_flow_of_day(&flows, day(2024, 1, 4)).unwrap().is_zero());
    assert!(net_flow_of_day(&flows, day(2024, 1, 2)).unwrap().is_zero());
}

#[test]
fn sub_periods_that_start_with_nothing_are_skipped() {
    let dates = vec![day(2024, 1, 1), day(2024, 1, 2), day(2024, 1, 3)];
    let values = vec![amt("0"), amt("100"), amt("150")];
    let flows = vec![flow(day(2024, 1, 2), "100", CashFlowClass::PaymentReceived)];
    let periods = twr_periods(&dates, &values, &flows, day(2024, 1, 3)).unwrap();
    assert_eq!(periods.break_count, 3);
    let factors: Vec<Decimal> = periods.factors.iter().map(|f| dec(*f)).collect();
    assert_eq!(factors, vec![number("1.5")]);
}

#[test]
fn dates_out_of_order_are_put_in_order_first() {
    let dates = vec![day(2024, 1, 3), day(2024, 1, 1), day(2024, 1, 2)];
    let values = vec![amt("150"), amt("0"), amt("100")];
    let flows = vec![flow(day(2024, 1, 2), "100", CashFlowClass::PaymentReceived)];
    let periods = twr_periods(&dates, &values, &flows, day(2024, 1, 3)).unwrap();
    assert_eq!(periods.break_count, 3);
    assert_eq!(periods.elapsed_days, 2);
    let factors: Vec<Decimal> = periods.factors.iter().map(|f| dec(*f)).collect();
    assert_eq!(factors, vec![number("1.5")]);
}

#[test]
fn of_two_values_for_one_date_the_last_counts() {
    let dates = vec![day(2024, 1, 2), day(2024, 1, 1), day(2024, 1, 2), day(2024, 1, 1)];
    let values = vec![amt("7"), amt("9"), amt("200"), amt("100")];
    let periods = twr_periods(&dates, &values, &vec![], day(2024, 1, 2)).unwrap();
    assert_eq!(periods.break_count, 2);
    assert_eq!(periods.elapsed_days, 1);
    let factors: Vec<Decimal> = periods.factors.iter().map(|f| dec(*f)).collect();
    assert_eq!(factors, vec![number("2")]);
}

#[test]
fn dates_and_values_that_are_not_equally_many_give_no_period() {
    let dates = vec![day(2024, 1, 1), day(2024, 1, 2)];
    let periods = twr_periods(&dates, &vec![amt("100")], &vec![], day(2024, 1, 2)).unwrap();
    assert_eq!((periods.break_count, periods.elapsed_days, periods.factors.len()), (0, 0, 0));
    let periods = twr_periods(&vec![], &vec![amt("100")], &vec![], day(2024, 1, 2)).unwrap();
    assert_eq!((periods.break_count, periods.elapsed_days, periods.factors.len()), (0, 0, 0));
    let one = twr_periods(&vec![day(2024, 1, 1)], &vec![amt("100")], &vec![], day(2024, 1, 1)).unwrap();
    assert_eq!((one.break_count, one.elapsed_days, one.factors.len()), (1, 0, 0));
}

#[test]
fn sub_periods_need_valued_break_dates() {
    let none = twr_periods(&vec![], &vec![], &vec![], day(2024, 1, 3)).unwrap();
    assert_eq!((none.break_count, none.elapsed_days, none.factors.len()), (0, 0, 0));
    let dates = vec![day(2024, 1, 1), day(2024, 1, 2)];
    let values = vec![amt("100"), amt("200")];
    let later = twr_periods(&dates, &values, &vec![], day(2024, 2, 1)).unwrap();
    assert_eq!(later.break_count, 1);
    assert_eq!(later.factors.len(), 0);
    assert_eq!(later.elapsed_days, 31);
    let earlier = twr_periods(&dates, &values, &vec![], day(2023, 12, 31)).unwrap();
    assert_eq!(earlier.elapsed_days, -1);
    let max = Decimal::MAX.to_string();
    let too_much = vec![
        flow(day(2024, 1, 2), &max, CashFlowClass::PaymentReceived),
        flow(day(2024, 1, 2), &max, CashFlowClass::PaymentReceived),
    ];
    assert_eq!(
        twr_periods(&dates, &values, &too_much, day(2024, 1, 2)).err(),
        Some(ValuationError::Overflow)
    );
    let tiny = vec![amt("0.0000000000000000000000000001"), amt("200")];
    assert_eq!(
        twr_periods(&dates, &vec![tiny[0], Amount::new(MAX_MANTISSA, 0).unwrap()], &vec![], day(2024, 1, 2)).err(),
        Some(ValuationError::Overflow)
    );
}

#[test]
fn scope_of_the_ledgers() {
    assert!(ledger_scope(&vec![], &vec![flow(day(2020, 1, 1), "1", CashFlowClass::PaymentReceived)]).is_none());
    let trades = vec![
        trade("B", "Buy", "1", "1", day(2024, 2, 1)),
        trade("A", "Buy", "1", "1", day(2024, 1, 15)),
        trade_at(None, "Buy", "1", "1", day(2024, 1, 20), 0),
        trade("B", "Sell", "1", "1", day(2024, 3, 1)),
    ];
    let scope = ledger_scope(&trades, &vec![]).unwrap();
    assert_eq!(scope.tickers, names(&["B", "A"]));
    assert_eq!(scope.first_date.day_number(), day(2024, 1, 15).day_number());
    let flows = vec![
        flow(day(2023, 12, 1), "1", CashFlowClass::Other),
        flow(day(2024, 1, 2), "1", CashFlowClass::PaymentReceived),
    ];
    let scope = ledger_scope(&trades, &flows).unwrap();
    assert_eq!(scope.first_date.day_number(), day(2024, 1, 2).day_number());
    let unmapped = vec![trade_at(None, "Buy", "1", "1", day(2024, 1, 20), 0)];
    let scope = ledger_scope(&unmapped, &vec![]).unwrap();
    assert_eq!(scope.tickers.len(), 0);
}

#[test]
fn grid_and_lookback() {
    let grid = date_grid(day(2024, 2, 27), day(2024, 3, 2));
    let days: Vec<i32> = grid.iter().map(|d| d.day_number()).collect();
    let first = day(2024, 2, 27).day_number();
    assert_eq!(days, vec![first, first + 1, first + 2, first + 3, first + 4]);
    assert_eq!(grid[2].month_label(), "2024-02");
    assert_eq!(grid[3].month_label(), "2024-03");
    assert_eq!(date_grid(day(2024, 3, 2), day(2024, 3, 2)).len(), 1);
    assert_eq!(date_grid(day(2024, 3, 3), day(2024, 3, 2)).len(), 0);
    assert_eq!(lookback_start(day(2024, 3, 8)).day_number(), day(2024, 3, 1).day_number());
    let early = Date::from_day_number(MIN_DAY + 3).unwrap();
    assert_eq!(lookback_start(early).day_number(), MIN_DAY);
    let edge = Date::from_day_number(MIN_DAY + 7).unwrap();
    assert_eq!(lookback_start(edge).day_number(), MIN_DAY);
}

#[test]
fn exchange_rates_that_are_needed() {
    let d = day(2024, 5, 10);
    let converter = CurrencyConverter::new();
    let mut book = PriceBook::new();
    book.record("US1", &vec![seen(d, "1", "USD")]);
    book.record("US2", &vec![seen(d, "1", "USD")]);
    book.record("EU", &vec![seen(d, "1", "EUR")]);
    book.record("UK", &vec![seen(d, "1", "GBp")]);
    book.record("JP", &vec![seen(d, "1", "JPY")]);
    let tickers = names(&["US1", "UK", "US2", "MISSING", "EU", "JP"]);
    assert_eq!(fx_tickers_needed(&book, &converter, &tickers), names(&["GBPUSD=X", "EURGBP=X"]));
    book.record("GBPUSD=X", &vec![]);
    assert_eq!(fx_tickers_needed(&book, &converter, &tickers), names(&["EURGBP=X"]));
    assert_eq!(fx_tickers_needed(&book, &converter, &names(&["UK", "JP"])).len(), 0);
}

#[test]
fn external_flows_are_picked_in_order() {
    let flows = vec![
        flow(day(2024, 1, 1), "1", CashFlowClass::Other),
        flow(day(2024, 1, 2), "2", CashFlowClass::Withdrawal),
        flow(day(2024, 1, 3), "3", CashFlowClass::Other),
        flow(day(2024, 1, 4), "4", CashFlowClass::PaymentReceived),
    ];
    let external = external_flows(&flows);
    let amounts: Vec<Decimal> = external.iter().map(|f| dec(f.amount)).collect();
    assert_eq!(amounts, vec![number("2"), number("4")]);
}

#[test]
fn a_whole_run_from_ledgers_and_prices() {
    let first = day(2024, 1, 1);
    let today = day(2024, 1, 4);
    let trades = vec![
        trade("US", "Sell", "4", "320", day(2024, 1, 3)),
        trade("US", "Buy", "10", "800", day(2024, 1, 1)),
        trade("UK", "Buy", "2", "5", day(2024, 1, 2)),
    ];
    let flows = vec![
        flow(day(2024, 1, 1), "805", CashFlowClass::PaymentReceived),
        flow(day(2024, 1, 2), "99", CashFlowClass::Other),
        flow(day(2024, 1, 3), "-320", CashFlowClass::Withdrawal),
    ];
    let mut book = PriceBook::new();
    book.record("US", &vec![seen(day(2024, 1, 1), "100", "USD"), seen(day(2024, 1, 3), "110", "USD")]);
    book.record("UK", &vec![seen(day(2024, 1, 4), "250", "GBp")]);
    book.record("GBPUSD=X", &vec![seen(day(2023, 12, 29), "1.25", "USD")]);
    let converter = CurrencyConverter::new();
    let tickers = names(&["US", "UK"]);
    let data = compute_portfolio(trades, &flows, &tickers, first, today, &book, &converter).unwrap();

    assert_eq!(data.dates.len(), 4);
    assert_eq!(data.ticker_values.len(), 8);
    assert_eq!(data.portfolio_values.len(), 4);
    let totals: Vec<Decimal> = data.portfolio_values.iter().map(|r| dec(r.value)).collect();
    assert_eq!(totals, vec![number("800"), number("805"), number("533"), number("533")]);
    let cells: Vec<(i32, String, Decimal)> =
        data.ticker_values.iter().map(|r| (r.date.day_number() - first.day_number(), r.ticker.clone(), dec(r.value))).collect();
    assert_eq!(cells[0], (0, "US".to_string(), number("800")));
    assert_eq!(cells[1], (0, "UK".to_string(), number("0")));
    assert_eq!(cells[3], (1, "UK".to_string(), number("5")));
    assert_eq!(cells[4], (2, "US".to_string(), number("528")));
    assert_eq!(cells[7], (3, "UK".to_string(), number("5")));

    assert_eq!(data.ticker_prices.len(), 8);
    assert_eq!(data.ticker_prices[0].ticker, "US");
    assert_eq!(data.ticker_prices[0].currency, "USD");
    assert_eq!(dec(data.ticker_prices[0].original_price), number("100"));
    assert_eq!(dec(data.ticker_prices[0].converted_price), number("80"));
    assert_eq!(data.ticker_prices[4].ticker, "UK");
    assert_eq!(data.ticker_prices[4].currency, "GBp");
    assert_eq!(dec(data.ticker_prices[4].converted_price), number("2.5"));

    let months: Vec<(String, Decimal)> =
        data.monthly_contributions.iter().map(|r| (r.month.clone(), dec(r.net_value))).collect();
    assert_eq!(months, vec![("2024-01".to_string(), number("970"))]);

    assert_eq!(dec(data.stats.total_invested), number("805"));
    assert_eq!(dec(data.stats.total_withdrawn), number("320"));
    assert_eq!(dec(data.stats.current_value), number("533"));
    assert_eq!(dec(data.stats.profit_loss), number("48"));
    assert_eq!(dec(data.stats.return_percentage), number("48") / number("805"));

    let schedule = data.xirr.unwrap();
    assert_eq!(schedule.day_offsets, vec![0, 2, 3]);
    let amounts: Vec<Decimal> = schedule.amounts.iter().map(|a| dec(*a)).collect();
    assert_eq!(amounts, vec![number("-805"), number("320"), number("533")]);

    assert_eq!(data.twr.break_count, 3);
    assert_eq!(data.twr.elapsed_days, 3);
    let factors: Vec<Decimal> = data.twr.factors.iter().map(|f| dec(*f)).collect();
    assert_eq!(factors, vec![number("853") / number("800"), number("1")]);
}

#[test]
fn a_run_before_the_first_ledger_date_is_empty() {
    let trades = vec![trade("A", "Buy", "1", "10", day(2024, 1, 5))];
    let book = PriceBook::new();
    let converter = CurrencyConverter::new();
    let data =
        compute_portfolio(trades, &vec![], &names(&["A"]), day(2024, 1, 5), day(2024, 1, 4), &book, &converter)
            .unwrap();
    assert_eq!(data.dates.len(), 0);
    assert_eq!(data.ticker_values.len(), 0);
    assert_eq!(data.portfolio_values.len(), 0);
    assert!(data.stats.current_value.is_zero());
    assert!(data.xirr.is_none());
    assert_eq!(data.monthly_contributions.len(), 1);
    assert_eq!(data.twr.break_count, 0);
}

#[test]
fn a_run_that_overflows_fails() {
    let max = Decimal::MAX.to_string();
    let trades = vec![trade("A", "Buy", &max, "10", day(2024, 1, 5))];
    let mut book = PriceBook::new();
    book.record("A", &vec![seen(day(2024, 1, 5), "2", "GBP")]);
    let converter = CurrencyConverter::new();
    let r = compute_portfolio(trades, &vec![], &names(&["A"]), day(2024, 1, 5), day(2024, 1, 5), &book, &converter);
    assert_eq!(r.err(), Some(ValuationError::Overflow));
}

#[test]
fn converted_prices_cover_every_date() {
    let d = day(2024, 5, 10);
    let mut book = PriceBook::new();
    book.record("A", &vec![seen(d, "3", "GBP")]);
    let dates = date_grid(Date::from_day_number(d.day_number() - 100).unwrap(), Date::from_day_number(d.day_number() + 100).unwrap());
    let prices = converted_prices(&book, &CurrencyConverter::new(), "A", &dates);
    assert_eq!(prices.len(), 201);
    let priced = prices.iter().filter(|p| !p.original.is_zero()).count();
    assert_eq!(priced, 30 + 1 + 90);
    assert!(prices[100 - 31].original.is_zero());
    assert!(!prices[100 - 30].original.is_zero());
    assert!(!prices[100 + 90].original.is_zero());
    assert!(prices[100 + 91].original.is_zero());
}

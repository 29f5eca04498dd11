use chrono::{Datelike, NaiveDate};
use investengine_csv_server_rs::background_processor::{compute_portfolio, PrecomputedData};
use investengine_csv_server_rs::date::{Date, DateTime};
use investengine_csv_server_rs::decimal::Amount;
use investengine_csv_server_rs::models::{CashFlowClass, CashFlowEvent, TradingRecord};
use investengine_csv_server_rs::prices::{CurrencyConverter, PriceBook, PriceObservation};
use investengine_csv_server_rs::run::{
    Phase, RunAction, RunEvent, RunOutcome, RunState, RunStatus,
};
use investengine_csv_server_rs::store::DerivedSeries;
use rust_decimal::Decimal;
use std::str::FromStr;

fn amt(text: &str) -> Amount {
    let d = Decimal::from_str(text).unwrap();
    Amount::new(d.mantissa(), d.scale()).unwrap()
}

fn dec(a: Amount) -> Decimal {
    Decimal::from_i128_with_scale(a.mantissa(), a.scale())
}

fn day(y: i32, m: u32, d: u32) -> Date {
    Date::from_day_number(NaiveDate::from_ymd_opt(y, m, d).unwrap().num_days_from_ce()).unwrap()
}

fn trade(ticker: &str, kind: &str, quantity: &str, value: &str, date: Date) -> TradingRecord {
    TradingRecord {
        security_isin: "IE00BK5BQT80".to_string(),
        transaction_type: kind.to_string(),
        quantity: amt(quantity),
        share_price: amt("1"),
        total_trade_value: amt(value),
        trade_date_time: DateTime::at_midnight(date),
        settlement_date: DateTime::at_midnight(date),
        broker: "Broker".to_string(),
        account_type: "ISA".to_string(),
        ticker: Some(ticker.to_string()),
    }
}

fn seen(date: Date, price: &str, currency: &str) -> PriceObservation {
    PriceObservation { date, price: amt(price), currency: currency.to_string() }
}

fn loaded(today: Date, trades: Vec<TradingRecord>, flows: Vec<CashFlowEvent>) -> (RunState, RunAction) {
    let (state, action) = RunState::new().step(RunEvent::Start { today });
    assert!(matches!(action, RunAction::SaveStatus { status: RunStatus::InProgress, error: None }));
    assert_eq!(state.phase, Phase::Starting);
    let (state, action) = state.step(RunEvent::StatusSaved);
    assert!(matches!(action, RunAction::LoadLedgers));
    assert_eq!(state.phase, Phase::Loading);
    state.step(RunEvent::LedgersLoaded { trades, flows })
}

fn cleared(state: RunState, action: RunAction) -> (RunState, PrecomputedData) {
    assert_eq!(state.phase, Phase::Clearing);
    assert!(matches!(action, RunAction::ClearSeries));
    assert!(state.pending.is_some());
    let (state, action) = state.step(RunEvent::SeriesCleared);
    assert_eq!(state.phase, Phase::Writing);
    assert!(state.pending.is_none());
    match action {
        RunAction::WriteSeries { data } => (state, data),
        other => panic!("the series were to be written, not {:?}", other),
    }
}

fn asked(action: &RunAction) -> (String, i32, i32) {
    match action {
        RunAction::FetchPrices { ticker, from, to } => (ticker.clone(), from.day_number(), to.day_number()),
        other => panic!("a fetch was expected, not {:?}", other),
    }
}

#[test]
fn a_run_goes_from_start_to_completion() {
    let first = day(2024, 1, 10);
    let today = day(2024, 1, 12);
    let trades = vec![trade("US", "Buy", "10", "800", first), trade("UK", "Buy", "1", "3", today)];
    let flows = vec![CashFlowEvent { date: day(2024, 1, 9), amount: amt("803"), class: CashFlowClass::PaymentReceived }];
    let (state, action) = loaded(today, trades, flows);
    assert_eq!(state.phase, Phase::FetchingPrices);
    assert_eq!(asked(&action), ("US".to_string(), day(2024, 1, 2).day_number(), today.day_number()));

    let (state, action) = state.step(RunEvent::PricesFetched { observations: vec![seen(first, "100", "USD")] });
    assert_eq!(state.phase, Phase::FetchingPrices);
    assert_eq!(asked(&action).0, "UK");

    let (state, action) = state.step(RunEvent::FetchFailed);
    assert_eq!(state.phase, Phase::FetchingRates);
    assert_eq!(asked(&action), ("GBPUSD=X".to_string(), day(2024, 1, 2).day_number(), today.day_number()));
    assert!(!state.book.contains("UK"));

    let (state, action) = state.step(RunEvent::PricesFetched { observations: vec![seen(first, "1.25", "USD")] });
    let (state, data) = cleared(state, action);
    assert_eq!(data.dates.len(), 11);
    assert_eq!(data.dates[0].day_number(), day(2024, 1, 2).day_number());
    assert_eq!(data.dates[10].day_number(), today.day_number());
    let totals: Vec<Decimal> = data.portfolio_values.iter().map(|r| dec(r.value)).collect();
    let mut expected = vec![Decimal::ZERO; 8];
    expected.extend(vec![Decimal::from(800); 3]);
    assert_eq!(totals, expected);
    assert_eq!(data.ticker_values.len(), 22);

    let (state, action) = state.step(RunEvent::SeriesWritten);
    assert_eq!(state.phase, Phase::Completing);
    assert!(matches!(action, RunAction::SaveStatus { status: RunStatus::Completed, error: None }));
    let (state, action) = state.step(RunEvent::StatusSaved);
    assert_eq!(state.phase, Phase::Finished);
    assert!(matches!(action, RunAction::Stop { outcome: RunOutcome::Completed }));
    let (state, action) = state.step(RunEvent::StatusSaved);
    assert_eq!(state.phase, Phase::Finished);
    assert!(matches!(action, RunAction::Stop { outcome: RunOutcome::Failed }));
}

#[test]
fn an_empty_ledger_ends_the_run_and_leaves_the_status() {
    let (state, action) = loaded(day(2024, 1, 12), vec![], vec![]);
    assert_eq!(state.phase, Phase::Finished);
    assert!(matches!(action, RunAction::Stop { outcome: RunOutcome::EmptyLedger }));
}

#[test]
fn a_run_without_foreign_prices_fetches_no_rate() {
    let today = day(2024, 1, 12);
    let (state, _) = loaded(today, vec![trade("UK", "Buy", "2", "5", today)], vec![]);
    let (state, action) = state.step(RunEvent::PricesFetched { observations: vec![seen(today, "250", "GBp")] });
    let (_, data) = cleared(state, action);
    assert_eq!(data.portfolio_values.len(), 8);
    assert!(data.portfolio_values[6].value.is_zero());
    assert_eq!(dec(data.portfolio_values[7].value), Decimal::from(5));
    assert_eq!(data.ticker_prices.len(), 8);
}

#[test]
fn trades_without_tickers_are_valued_at_once() {
    let today = day(2024, 1, 12);
    let mut unmapped = trade("x", "Buy", "2", "5", today);
    unmapped.ticker = None;
    let (state, action) = loaded(today, vec![unmapped], vec![]);
    let (_, data) = cleared(state, action);
    assert_eq!(data.ticker_values.len(), 0);
    assert_eq!(data.portfolio_values.len(), 8);
    assert!(data.portfolio_values.iter().all(|r| r.value.is_zero()));
}

#[test]
fn store_failures_end_the_run_as_failed() {
    let today = day(2024, 1, 12);
    let (state, action) = RunState::new().step(RunEvent::Start { today });
    assert!(matches!(action, RunAction::SaveStatus { .. }));
    let (state, action) = state.step(RunEvent::StoreFailed { message: "no connection".to_string() });
    assert_eq!(state.phase, Phase::Failing);
    match action {
        RunAction::SaveStatus { status, error } => {
            assert_eq!(status, RunStatus::Failed);
            assert_eq!(error, Some("no connection".to_string()));
        }
        other => panic!("the status was to be saved, not {:?}", other),
    }
    let (state, action) = state.step(RunEvent::StoreFailed { message: "still none".to_string() });
    assert_eq!(state.phase, Phase::Finished);
    assert!(matches!(action, RunAction::Stop { outcome: RunOutcome::Failed }));

    let (state, _) = loaded(today, vec![trade("UK", "Buy", "2", "5", today)], vec![]);
    let (state, action) = state.step(RunEvent::FetchFailed);
    let (state, _) = cleared(state, action);
    let (state, action) = state.step(RunEvent::StoreFailed { message: "disk full".to_string() });
    assert_eq!(state.phase, Phase::Failing);
    assert!(matches!(action, RunAction::SaveStatus { status: RunStatus::Failed, error: Some(_) }));

    let (state, _) = loaded(today, vec![trade("UK", "Buy", "2", "5", today)], vec![]);
    let (state, action) = state.step(RunEvent::FetchFailed);
    assert!(matches!(action, RunAction::ClearSeries));
    let (state, action) = state.step(RunEvent::StoreFailed { message: "locked".to_string() });
    assert_eq!(state.phase, Phase::Failing);
    assert!(matches!(action, RunAction::SaveStatus { status: RunStatus::Failed, error: Some(_) }));
}

#[test]
fn nothing_is_written_before_the_store_is_cleared() {
    let today = day(2024, 1, 12);
    let (state, _) = loaded(today, vec![trade("UK", "Buy", "2", "5", today)], vec![]);
    let (state, action) = state.step(RunEvent::FetchFailed);
    assert_eq!(state.phase, Phase::Clearing);
    assert!(matches!(action, RunAction::ClearSeries));
    let (state, action) = state.step(RunEvent::SeriesWritten);
    assert_eq!(state.phase, Phase::Finished);
    assert!(matches!(action, RunAction::Stop { outcome: RunOutcome::Failed }));
}

#[test]
fn overflow_ends_the_run_as_failed() {
    let today = day(2024, 1, 12);
    let max = Decimal::MAX.to_string();
    let (state, _) = loaded(today, vec![trade("UK", "Buy", &max, "5", today)], vec![]);
    let (state, action) = state.step(RunEvent::PricesFetched { observations: vec![seen(today, "2", "GBP")] });
    assert_eq!(state.phase, Phase::Failing);
    match action {
        RunAction::SaveStatus { status, error } => {
            assert_eq!(status, RunStatus::Failed);
            assert!(error.is_some());
        }
        other => panic!("the status was to be saved, not {:?}", other),
    }
}

#[test]
fn events_out_of_turn_end_the_run() {
    let (state, action) = RunState::new().step(RunEvent::StatusSaved);
    assert_eq!(state.phase, Phase::Finished);
    assert!(matches!(action, RunAction::Stop { outcome: RunOutcome::Failed }));
    let (state, _) = RunState::new().step(RunEvent::Start { today: day(2024, 1, 1) });
    let (state, action) = state.step(RunEvent::SeriesWritten);
    assert_eq!(state.phase, Phase::Finished);
    assert!(matches!(action, RunAction::Stop { outcome: RunOutcome::Failed }));
}

#[test]
fn a_rewrite_leaves_nothing_of_the_older_series() {
    let converter = CurrencyConverter::new();
    let mut book = PriceBook::new();
    book.record("A", &vec![seen(day(2024, 1, 1), "2", "GBP")]);
    let tickers = vec!["A".to_string()];
    let long = compute_portfolio(
        vec![trade("A", "Buy", "1", "2", day(2024, 1, 1))],
        &vec![],
        &tickers,
        day(2024, 1, 1),
        day(2024, 1, 31),
        &book,
        &converter,
    )
    .unwrap();
    let short = compute_portfolio(
        vec![trade("A", "Buy", "1", "2", day(2024, 1, 20))],
        &vec![],
        &tickers,
        day(2024, 1, 20),
        day(2024, 1, 25),
        &book,
        &converter,
    )
    .unwrap();
    let mut stored = DerivedSeries::new();
    stored.rewrite(long);
    assert_eq!(stored.ticker_values.len(), 31);
    assert_eq!(stored.portfolio_values.len(), 31);
    stored.rewrite(short);
    assert_eq!(stored.ticker_values.len(), 6);
    assert_eq!(stored.portfolio_values.len(), 6);
    assert_eq!(stored.ticker_prices.len(), 6);
    let first = day(2024, 1, 20).day_number();
    let last = day(2024, 1, 25).day_number();
    assert!(stored.ticker_values.iter().all(|r| first <= r.date.day_number() && r.date.day_number() <= last));
    assert!(stored.portfolio_values.iter().all(|r| first <= r.date.day_number() && r.date.day_number() <= last));
    assert!(stored.ticker_prices.iter().all(|r| first <= r.date.day_number() && r.date.day_number() <= last));
    assert_eq!(stored.monthly_contributions.len(), 1);
    assert!(stored.stats.is_some());
    stored.clear();
    assert_eq!(stored.ticker_values.len(), 0);
    assert!(stored.stats.is_none());
}

#[test]
fn a_new_run_knows_no_price_and_the_two_rules() {
    let state = RunState::new();
    assert_eq!(state.phase, Phase::Idle);
    assert!(state.today.is_none() && state.first_date.is_none());
    assert!(state.trades.is_empty() && state.flows.is_empty() && state.tickers.is_empty());
    assert!(state.queue.is_empty());
    assert_eq!(state.next, 0);
    assert!(!state.book.contains("US"));
    assert_eq!(state.converter.get_fx_ticker("USD"), Some("GBPUSD=X".to_string()));
    assert_eq!(state.converter.get_fx_ticker("EUR"), Some("EURGBP=X".to_string()));
    assert_eq!(state.converter.get_fx_ticker("JPY"), None);
    let d = day(2024, 1, 2);
    let pounds = state.converter.convert_to_gbp(amt("100"), "USD", d, Some(amt("1.25"))).unwrap();
    assert_eq!(dec(pounds), Decimal::from(80));
}

#[test]
fn writing_without_clearing_keeps_the_older_rows() {
    let converter = CurrencyConverter::new();
    let mut book = PriceBook::new();
    book.record("A", &vec![seen(day(2024, 1, 1), "2", "GBP")]);
    let tickers = vec!["A".to_string()];
    let derive = |first: Date, last: Date| {
        compute_portfolio(vec![trade("A", "Buy", "1", "2", first)], &vec![], &tickers, first, last, &book, &converter)
            .unwrap()
    };
    let mut stored = DerivedSeries::new();
    stored.write(derive(day(2024, 1, 1), day(2024, 1, 31)));
    stored.write(derive(day(2024, 1, 20), day(2024, 1, 25)));
    assert_eq!(stored.ticker_values.len(), 31 + 6);
    assert_eq!(stored.portfolio_values.len(), 31 + 6);
    assert_eq!(stored.ticker_values[0].date.day_number(), day(2024, 1, 1).day_number());
    stored.clear();
    stored.write(derive(day(2024, 1, 20), day(2024, 1, 25)));
    assert_eq!(stored.ticker_values.len(), 6);
    assert_eq!(stored.ticker_values[0].date.day_number(), day(2024, 1, 20).day_number());
}

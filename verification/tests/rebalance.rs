use investengine_csv_server_rs::decimal::{Amount, MAX_MANTISSA};
use investengine_csv_server_rs::rebalance::{
    calculate_rebalancing, find_amount, RebalanceError, TickerAmount,
};
use investengine_csv_server_rs::service::current_allocations;
use rust_decimal::prelude::ToPrimitive;
use rust_decimal::Decimal;
use std::str::FromStr;

fn amt(text: &str) -> Amount {
    let d = Decimal::from_str(text).unwrap();
    Amount::new(d.mantissa(), d.scale()).unwrap()
}

fn dec(a: Amount) -> Decimal {
    Decimal::from_i128_with_scale(a.mantissa(), a.scale())
}

fn float(a: Amount) -> f64 {
    dec(a).to_f64().unwrap_or(0.0)
}

fn entry(ticker: &str, amount: &str) -> TickerAmount {
    TickerAmount { ticker: ticker.to_string(), amount: amt(amount) }
}

#[test]
fn test_calculate_rebalancing() {
    let current_values = vec![entry("VWRP.L", "1000.0"), entry("VUSA.L", "500.0")];
    let target_allocations = vec![entry("VWRP.L", "50.0"), entry("VUSA.L", "50.0")];
    let new_capital = amt("500.0");
    let result = calculate_rebalancing(new_capital, &current_values, &target_allocations).unwrap();

    assert_eq!(float(result.summary.total_current), 1500.0);
    assert_eq!(float(result.summary.new_total), 2000.0);
    assert_eq!(float(result.summary.total_investment), 500.0);

    let vusa = result.investments.iter().find(|i| i.ticker == "VUSA.L").unwrap();
    assert_eq!(float(vusa.investment_amount), 500.0);
    assert_eq!(float(vusa.target_value), 1000.0);
}

#[test]
fn test_calculate_rebalancing_normalization() {
    let current_values = vec![entry("VWRP.L", "1000.0")];
    let target_allocations = vec![entry("VWRP.L", "1.0")];
    let new_capital = amt("500.0");
    let result = calculate_rebalancing(new_capital, &current_values, &target_allocations).unwrap();

    assert_eq!(float(result.summary.new_total), 1500.0);
    let vwrp = result.investments.iter().find(|i| i.ticker == "VWRP.L").unwrap();
    assert_eq!(float(vwrp.investment_amount), 500.0);
}

#[test]
fn rebalancing_only_buys() {
    let current = vec![entry("A", "900"), entry("B", "100"), entry("C", "50")];
    let targets = vec![entry("B", "75"), entry("A", "25"), entry("D", "10")];
    let r = calculate_rebalancing(amt("0"), &current, &targets).unwrap();
    assert_eq!(r.investments.len(), 2);
    assert_eq!(r.investments[0].ticker, "A");
    assert_eq!(dec(r.investments[0].current_value), Decimal::from(900));
    assert_eq!(dec(r.investments[0].target_value), Decimal::from(250));
    assert!(r.investments[0].investment_amount.is_zero());
    assert_eq!(r.investments[1].ticker, "B");
    assert_eq!(dec(r.investments[1].target_value), Decimal::from(750));
    assert_eq!(dec(r.investments[1].investment_amount), Decimal::from(650));
    assert_eq!(dec(r.summary.total_current), Decimal::from(1000));
    assert_eq!(dec(r.summary.new_total), Decimal::from(1000));
    assert_eq!(dec(r.summary.total_investment), Decimal::from(650));
}

#[test]
fn rebalancing_rounds_what_it_reports() {
    let current = vec![entry("A", "100.005"), entry("B", "0.004")];
    let targets = vec![entry("A", "1"), entry("B", "2")];
    let r = calculate_rebalancing(amt("50"), &current, &targets).unwrap();
    assert_eq!(dec(r.investments[0].current_value), Decimal::from_str("100.00").unwrap());
    assert_eq!(r.investments[0].current_value.scale(), 2);
    assert!(r.investments[1].current_value.is_zero());
    assert_eq!(dec(r.summary.total_current), Decimal::from_str("100.01").unwrap());
    assert_eq!(dec(r.summary.new_total), Decimal::from_str("150.01").unwrap());
    let exact_total = Decimal::from_str("150.009").unwrap();
    let third = Decimal::ONE / Decimal::from(3) * Decimal::from(100) / Decimal::from(100);
    assert_eq!(dec(r.investments[0].target_value), (exact_total * third).round_dp(2));
}

#[test]
fn rebalancing_takes_the_first_entry_of_a_ticker() {
    let current = vec![entry("A", "10"), entry("A", "1000"), entry("B", "10")];
    let targets = vec![entry("A", "50"), entry("B", "50"), entry("B", "0")];
    let r = calculate_rebalancing(amt("20"), &current, &targets).unwrap();
    assert_eq!(r.investments.len(), 2);
    assert_eq!(dec(r.summary.total_current), Decimal::from(20));
    assert_eq!(dec(r.investments[0].investment_amount), Decimal::from(10));
    assert_eq!(dec(find_amount(&targets, "B").unwrap()), Decimal::from(50));
    assert!(find_amount(&targets, "C").is_none());
}

#[test]
fn rebalancing_errors() {
    let current = vec![entry("A", "10")];
    assert_eq!(
        calculate_rebalancing(amt("1"), &current, &vec![entry("B", "100")]).err(),
        Some(RebalanceError::NoCommonTickers)
    );
    assert_eq!(
        calculate_rebalancing(amt("1"), &vec![], &vec![]).err(),
        Some(RebalanceError::NoCommonTickers)
    );
    assert_eq!(
        calculate_rebalancing(amt("1"), &current, &vec![entry("A", "0.00")]).err(),
        Some(RebalanceError::ZeroTargetTotal)
    );
    let two = vec![entry("A", "10"), entry("B", "10")];
    assert_eq!(
        calculate_rebalancing(amt("1"), &two, &vec![entry("A", "5"), entry("B", "-5")]).err(),
        Some(RebalanceError::ZeroTargetTotal)
    );
    let max = Decimal::MAX.to_string();
    assert_eq!(
        calculate_rebalancing(amt(&max), &vec![entry("A", &max)], &vec![entry("A", "1")]).err(),
        Some(RebalanceError::Overflow)
    );
    assert_eq!(
        RebalanceError::NoCommonTickers.message(),
        "No common tickers between current portfolio and target allocations"
    );
    assert_eq!(RebalanceError::ZeroTargetTotal.message(), "Target allocations sum to zero");
    assert!(!RebalanceError::Overflow.message().is_empty());
}

#[test]
fn allocations_of_what_is_held() {
    let values = vec![entry("A", "750"), entry("B", "250"), entry("C", "0.004"), entry("D", "-0.004")];
    let rows = current_allocations(&values).unwrap();
    assert_eq!(rows.len(), 2);
    assert_eq!(rows[0].ticker, "A");
    assert_eq!(dec(rows[0].current_value), Decimal::from(750));
    assert_eq!(dec(rows[0].current_allocation_pct), Decimal::from(75));
    assert_eq!(dec(rows[1].current_allocation_pct), Decimal::from(25));
    let thirds = vec![entry("A", "1"), entry("B", "2")];
    let rows = current_allocations(&thirds).unwrap();
    assert_eq!(dec(rows[0].current_allocation_pct), Decimal::from_str("33.33").unwrap());
    assert_eq!(dec(rows[1].current_allocation_pct), Decimal::from_str("66.67").unwrap());
    assert_eq!(current_allocations(&vec![]).unwrap().len(), 0);
    assert_eq!(current_allocations(&vec![entry("A", "5"), entry("B", "-5")]).unwrap().len(), 0);
    let max = Amount::new(MAX_MANTISSA, 0).unwrap();
    let too_much = vec![
        TickerAmount { ticker: "A".to_string(), amount: max },
        TickerAmount { ticker: "B".to_string(), amount: max },
    ];
    assert!(current_allocations(&too_much).is_none());
}

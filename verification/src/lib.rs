//! Reconstruction of a portfolio's history from its trade and cash ledgers:
//! price series with gap filling, currency normalisation, daily holdings and
//! values, monthly contributions and the inputs of the performance figures.

pub mod background_processor;
pub mod contributions;
pub mod date;
pub mod decimal;
pub mod fields;
pub mod holdings;
pub mod mappings;
pub mod merge_csv;
pub mod models;
pub mod portfolio_stats;
pub mod prices;
pub mod quotes;
pub mod rebalance;
pub mod run;
pub mod security_parser;
pub mod service;
pub mod sorting;
pub mod statements;
pub mod store;
pub mod text;
pub mod valuation;

use investengine_csv_server_rs::merge_csv::{
    detect_file_type, extract_account_type, upload_kind, FileType,
};
use investengine_csv_server_rs::security_parser::{
    extract_isin, extract_security_and_isin, security_from_captures,
};

#[test]
fn cash_statement_is_detected_by_its_tag() {
    assert_eq!(detect_file_type("GIA_Cash_statement_5_Jun_2022.csv"), FileType::Cash);
    assert_eq!(detect_file_type("gia_cash_statement.csv"), FileType::Cash);
    assert_eq!(detect_file_type("GIA_Trading_statement_5_Jun_2022.csv"), FileType::Trading);
    assert_eq!(detect_file_type("cash.csv"), FileType::Trading);
    assert_eq!(detect_file_type(""), FileType::Trading);
}

#[test]
fn account_type_prefers_delimited_tags() {
    assert_eq!(extract_account_type("GIA_Trading_statement.csv"), "GIA");
    assert_eq!(extract_account_type("isa_cash_statement.csv"), "ISA");
    assert_eq!(extract_account_type("my_ISA_and_GIA.csv"), "ISA");
    assert_eq!(extract_account_type("my_GIA_and_ISA_.csv"), "GIA");
    assert_eq!(extract_account_type("statementGIAisa.csv"), "GIA");
    assert_eq!(extract_account_type("visa.csv"), "ISA");
    assert_eq!(extract_account_type("statement.csv"), "Unknown");
}

#[test]
fn security_line_splits_into_name_and_isin() {
    let (name, isin) = extract_security_and_isin("Vanguard FTSE All-World  / ISIN IE00BK5BQT80");
    assert_eq!(name, "Vanguard FTSE All-World");
    assert_eq!(isin, Some("IE00BK5BQT80".to_string()));
}

#[test]
fn security_line_without_isin_is_trimmed() {
    let (name, isin) = extract_security_and_isin("  Some Fund  ");
    assert_eq!(name, "Some Fund");
    assert_eq!(isin, None);
    let (name, isin) = extract_security_and_isin("Fund / ISIN ie00bk5bqt80");
    assert_eq!(name, "Fund / ISIN ie00bk5bqt80");
    assert_eq!(isin, None);
}

#[test]
fn security_from_given_captures() {
    let caps = Some(vec![
        Some("x / ISIN GB00B3X7QG63".to_string()),
        Some(" x ".to_string()),
        Some("GB00B3X7QG63".to_string()),
    ]);
    let (name, isin) = security_from_captures("ignored", &caps);
    assert_eq!(name, "x");
    assert_eq!(isin, Some("GB00B3X7QG63".to_string()));
    let (name, isin) = security_from_captures(" raw ", &None);
    assert_eq!(name, "raw");
    assert_eq!(isin, None);
    let short = Some(vec![Some("m".to_string())]);
    let (name, isin) = security_from_captures("t", &short);
    assert_eq!(name, "");
    assert_eq!(isin, None);
}

#[test]
fn only_csv_files_are_taken_from_an_upload() {
    assert_eq!(upload_kind("GIA_Cash_statement.csv"), Some(FileType::Cash));
    assert_eq!(upload_kind("ISA_Trading_statement.csv"), Some(FileType::Trading));
    assert_eq!(upload_kind(".csv"), Some(FileType::Trading));
    assert_eq!(upload_kind(""), None);
    assert_eq!(upload_kind("GIA_Cash_statement.CSV"), None);
    assert_eq!(upload_kind("statement.csv.txt"), None);
}

#[test]
fn a_trade_is_filed_by_its_isin() {
    assert_eq!(extract_isin("Vanguard FTSE All-World / ISIN IE00BK5BQT80"), "IE00BK5BQT80");
    assert_eq!(extract_isin("Vanguard FTSE All-World"), "");
    assert_eq!(extract_isin(""), "");
}

use rupee::calendar::Date;
use rupee::statement_parsers::hdfc_account_statement::{parse_hdfc_row, parse_hdfc_row_checked};
use rupee::statement_parsers::{
    find_statement_parser, get_statement_parser, parse_statement, parse_statement_checked, parse_statement_outcomes,
    statement_parsers, RowError, RowFormat, UnparsedRow,
};

fn row(cells: &[&str]) -> UnparsedRow {
    UnparsedRow { cells: cells.iter().map(|c| c.to_string()).collect() }
}

fn ymd(y: i32, m: u32, d: u32) -> Date {
    Date::from_ymd_opt(y, m, d).unwrap()
}

#[test]
fn debit_rows_are_negative() {
    let r = row(&["05/01/2024", "UPI-COFFEE", "05/01/24", " 250.00 ", "", "0001", "1000.00"]);
    let p = parse_hdfc_row(None, None, &r).unwrap();
    assert_eq!(p.date, ymd(2024, 1, 5));
    assert_eq!(p.amount, -25000);
    assert_eq!(p.description, "UPI-COFFEE");
    assert_eq!(p.source, "UPI-COFFEE");
    assert_eq!(p.destination, "UPI-COFFEE");
}

#[test]
fn credit_rows_are_positive_and_use_default_accounts() {
    let r = row(&["06/01/2024", "SALARY", "06/01/24", "", "1,00,000.50", "0002", "2000.00"]);
    let from = "Employer".to_string();
    let to = "Savings".to_string();
    let p = parse_hdfc_row(Some(&from), Some(&to), &r).unwrap();
    assert_eq!(p.amount, 10000050);
    assert_eq!(p.source, "Employer");
    assert_eq!(p.destination, "Savings");
    assert_eq!(p.description, "SALARY");
}

#[test]
fn malformed_rows_are_refused() {
    assert_eq!(parse_hdfc_row(None, None, &row(&[])).err(), Some(RowError::MissingDate));
    assert_eq!(parse_hdfc_row(None, None, &row(&["2024-01-05", "X"])).err(), Some(RowError::InvalidDate("input contains invalid characters".to_string())));
    assert_eq!(parse_hdfc_row(None, None, &row(&["05/01/2024"])).err(), Some(RowError::MissingDescription));
    // Neither a withdrawal nor a deposit.
    assert_eq!(
        parse_hdfc_row(None, None, &row(&["05/01/2024", "X", "d", "", "", "r"])).err(),
        Some(RowError::InvalidDebitCredit)
    );
    // Both a withdrawal and a deposit.
    assert_eq!(
        parse_hdfc_row(None, None, &row(&["05/01/2024", "X", "d", "1.00", "2.00", "r"])).err(),
        Some(RowError::InvalidDebitCredit)
    );
    // Amount cells missing altogether.
    assert_eq!(parse_hdfc_row(None, None, &row(&["05/01/2024", "X"])).err(), Some(RowError::InvalidDebitCredit));
    assert_eq!(RowError::InvalidDebitCredit.message(), "Invalid debit/credit structure");
    assert_eq!(RowError::MissingDate.message(), "Missing date");
}

#[test]
fn the_most_negative_debit_is_reported() {
    let r = row(&["05/01/2024", "X", "d", "-92233720368547758.08", "", "r"]);
    assert!(parse_hdfc_row_checked(None, None, &r).is_none());
    let ok = row(&["05/01/2024", "X", "d", "-1.00", "", "r"]);
    assert_eq!(parse_hdfc_row_checked(None, None, &ok).unwrap().unwrap().amount, 100);
}

#[test]
fn templates_are_found_by_name() {
    assert_eq!(statement_parsers().len(), 1);
    let p = get_statement_parser("HDFC Account");
    assert_eq!(p.name, "HDFC Account");
    assert_eq!(p.format, RowFormat::HdfcAccount);
    let q = find_statement_parser("HDFC Account").unwrap();
    assert_eq!(q.name, "HDFC Account");
    assert!(find_statement_parser("hdfc account").is_none());
    assert!(find_statement_parser("ICICI").is_none());
}

#[test]
fn statements_skip_rows_that_do_not_read() {
    let data: Vec<Vec<String>> = vec![
        vec!["05/01/2024", "COFFEE", "05/01/24", "250.00", "", "1", "1000"],
        vec!["Date", "Narration", "Value Dat", "Debit Amount", "Credit Amount", "Chq/Ref Number", "Closing Balance"],
        vec!["06/01/2024", "SALARY", "06/01/24", "", "5000", "2", "6000"],
    ]
    .into_iter()
    .map(|r| r.into_iter().map(String::from).collect())
    .collect();
    let rows = parse_statement("HDFC Account", None, None, data.clone());
    assert_eq!(rows.len(), 2);
    assert_eq!(rows[0].amount, -25000);
    assert_eq!(rows[1].amount, 500000);
    assert_eq!(rows[1].date, ymd(2024, 1, 6));
    let outcomes = parse_statement_outcomes("HDFC Account", None, None, &data);
    assert_eq!(outcomes.len(), 3);
    assert_eq!(outcomes[1].as_ref().err(), Some(&RowError::InvalidDate("input contains invalid characters".to_string())));
    assert_eq!(outcomes[1].as_ref().err().unwrap().message(), "input contains invalid characters");
    let checked = parse_statement_checked("HDFC Account", None, None, data).unwrap();
    assert_eq!(checked.len(), 2);
}

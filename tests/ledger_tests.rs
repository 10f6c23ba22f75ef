use ledger::amount::{format_amount, parse_amount};
use ledger::date::SimpleDate;
use ledger::field::TransactionField;
use ledger::instructions::{HelpState, Instructions};
use ledger::report::{DirectionAndCategory, TransactionsReport};
use ledger::table::{resolve_commit_text, FileType, TransactionsTable};
use ledger::transaction::Transaction;

fn date(text: &str) -> SimpleDate {
    SimpleDate::parse(text).unwrap()
}

fn record(
    day: &str,
    amount: i64,
    details: &str,
    category: &str,
    direction: &str,
    currency: &str,
) -> Transaction {
    Transaction {
        date: date(day),
        amount,
        details: details.to_string(),
        category: category.to_string(),
        method: "card".to_string(),
        direction: direction.to_string(),
        currency: currency.to_string(),
    }
}

fn key(direction: &str, category: Option<&str>) -> DirectionAndCategory {
    (Some(direction.to_string()), category.map(|c| c.to_string()))
}

#[test]
fn two_digit_year_is_expanded() {
    let d = SimpleDate::parse("23-01-05").unwrap();
    assert_eq!(d.year, 2023);
    assert_eq!(d.month, 1);
    assert_eq!(d.day, 5);
}

#[test]
fn invalid_calendar_date_is_rejected() {
    let e = SimpleDate::parse("2024-02-30").unwrap_err();
    assert_eq!(e, "Invalid date: 2024-02-30");
}

#[test]
fn date_round_trip_on_a_concrete_date() {
    let d = SimpleDate::from_calendar(2024, 3, 7).unwrap();
    assert_eq!(d.format(), "2024.03.07");
    assert_eq!(SimpleDate::parse(&d.format()).unwrap(), d);
}

#[test]
fn date_text_is_zero_padded() {
    let d = SimpleDate::from_calendar(987, 1, 2).unwrap();
    assert_eq!(d.format(), "0987.01.02");
}

#[test]
fn dot_and_dash_separators_are_read() {
    assert_eq!(date("2024.12.31"), date("2024-12-31"));
    assert!(date("2024.01.01").is_before(&date("2024.01.02")));
    assert!(!date("2024.01.02").is_before(&date("2024.01.02")));
    assert!(date("2023.12.31") < date("2024.01.01"));
    assert!(date("2024.02.01") > date("2024.01.31"));
    assert_eq!(date("2024.02.01").partial_cmp(&date("2024.02.01")), Some(std::cmp::Ordering::Equal));
}

#[test]
fn date_errors_name_the_failing_part() {
    assert_eq!(SimpleDate::parse("x.01.01").unwrap_err(), "Invalid year: x");
    assert_eq!(SimpleDate::parse("2024").unwrap_err(), "Missing month in 2024");
    assert_eq!(SimpleDate::parse("2024.13.01").unwrap_err(), "Invalid month: 13");
    assert_eq!(SimpleDate::parse("2024.300.01").unwrap_err(), "Invalid month: 300");
    assert_eq!(SimpleDate::parse("2024.01").unwrap_err(), "Missing day in 2024.01");
    assert_eq!(SimpleDate::parse("2024.01.x").unwrap_err(), "Invalid day: x");
    assert_eq!(
        SimpleDate::parse("2024-01-05-7").unwrap_err(),
        "Unexpected text after day in 2024-01-05-7"
    );
}

#[test]
fn calendar_rules_follow_leap_years() {
    assert!(SimpleDate::from_calendar(2024, 2, 29).is_some());
    assert!(SimpleDate::from_calendar(2000, 2, 29).is_some());
    assert!(SimpleDate::from_calendar(2023, 2, 29).is_none());
    assert!(SimpleDate::from_calendar(1900, 2, 29).is_none());
    assert!(SimpleDate::from_calendar(2024, 4, 31).is_none());
    assert!(SimpleDate::from_calendar(2024, 0, 1).is_none());
    assert!(SimpleDate::from_calendar(10000, 1, 1).is_none());
}

#[test]
fn amounts_are_read_in_hundredths() {
    assert_eq!(parse_amount("12.5"), Ok(1250));
    assert_eq!(parse_amount("-3.05"), Ok(-305));
    assert_eq!(parse_amount("+7"), Ok(700));
    assert_eq!(parse_amount(".75"), Ok(75));
    assert_eq!(parse_amount("4."), Ok(400));
    assert_eq!(parse_amount("").unwrap_err(), "cannot parse amount from empty string");
    assert_eq!(parse_amount("1.234").unwrap_err(), "invalid amount literal");
    assert_eq!(parse_amount("abc").unwrap_err(), "invalid amount literal");
    assert_eq!(parse_amount(".").unwrap_err(), "invalid amount literal");
    assert_eq!(parse_amount("99999999999999999999").unwrap_err(), "invalid amount literal");
}

#[test]
fn amounts_are_shown_with_two_decimals() {
    assert_eq!(format_amount(0), "");
    assert_eq!(format_amount(12000), "120.00");
    assert_eq!(format_amount(-5), "-0.05");
    assert_eq!(format_amount(1250), "12.50");
}

#[test]
fn field_layout() {
    assert_eq!(TransactionField::all_fields().len(), 7);
    assert_eq!(TransactionField::get(0), Some(TransactionField::Date));
    assert_eq!(TransactionField::get(6), Some(TransactionField::Currency));
    assert_eq!(TransactionField::get(7), None);
    assert_eq!(TransactionField::widths(), vec![11, 10, 100, 15, 9, 9, 9]);
    assert_eq!(
        TransactionField::names(),
        vec!["Date", "Amount", "Details", "Category", "Method", "Direction", "Currency"]
    );
}

#[test]
fn file_type_follows_the_extension() {
    assert_eq!(FileType::new("transactions.json"), FileType::Json);
    assert_eq!(FileType::new("dir/transactions.csv"), FileType::Csv);
    assert_eq!(FileType::new("transactions.txt"), FileType::Unknown);
    assert_eq!(FileType::new("transactions"), FileType::Unknown);
    assert_eq!(FileType::new(".csv"), FileType::Unknown);
    let table = TransactionsTable::new("notes.md");
    assert_eq!(table.storage_format().unwrap_err(), "File type unknown");
    assert_eq!(TransactionsTable::new("a.csv").storage_format(), Ok(FileType::Csv));
}

#[test]
fn new_record_and_field_text() {
    let mut t = Transaction::new(date("2024.05.01"));
    assert_eq!(t.get_column_text(0), Some("2024.05.01".to_string()));
    assert_eq!(t.get_column_text(1), Some("".to_string()));
    assert_eq!(t.mutate_field(1, "42.1"), Ok(()));
    assert_eq!(t.get_field_text(&TransactionField::Amount), "42.10");
    assert_eq!(t.mutate_field(2, " coffee "), Ok(()));
    assert_eq!(t.details, " coffee ");
    assert_eq!(t.get_column_text(9), None);
    assert_eq!(t.mutate_field(9, "ignored"), Ok(()));
}

#[test]
fn failed_date_edit_leaves_the_record() {
    let mut t = record("2024.01.05", 100, "rent", "home", "out", "ILS");
    let before = t.clone();
    let e = t.mutate_field(0, "2024-02-30").unwrap_err();
    assert!(e.contains("parse"));
    assert!(t == before);
    let e = t.mutate_field(1, "ten").unwrap_err();
    assert_eq!(e, " failed to parse as number: invalid amount literal");
    assert!(t == before);
}

#[test]
fn records_compare_all_columns() {
    let a = record("2024.01.05", 100, "rent", "home", "out", "ILS");
    let mut b = a.clone();
    assert!(a == b);
    b.direction = "in".to_string();
    assert!(a != b);
}

fn ledger_with(records: Vec<Transaction>) -> TransactionsTable {
    let mut table = TransactionsTable::new("ledger.csv");
    table.load_transactions(records);
    table
}

fn dates(table: &TransactionsTable) -> Vec<String> {
    table.records().iter().map(|t| t.date.format()).collect()
}

#[test]
fn loading_sorts_by_date() {
    let table = ledger_with(vec![
        record("2024.03.01", 1, "c", "x", "out", "ILS"),
        record("2024.01.01", 2, "a", "x", "out", "ILS"),
        record("2024.02.01", 3, "b", "x", "out", "ILS"),
        record("2024.01.01", 4, "d", "x", "out", "ILS"),
    ]);
    assert_eq!(dates(&table), vec!["2024.01.01", "2024.01.01", "2024.02.01", "2024.03.01"]);
    let details: Vec<&str> = table.records().iter().map(|t| t.details.as_str()).collect();
    assert_eq!(details, vec!["a", "d", "b", "c"]);
    assert_eq!(table.len(), 4);
}

#[test]
fn committing_a_date_keeps_the_order() {
    let mut table = ledger_with(vec![
        record("2024.01.01", 1, "a", "x", "out", "ILS"),
        record("2024.02.01", 2, "b", "x", "out", "ILS"),
        record("2024.03.01", 3, "c", "x", "out", "ILS"),
    ]);
    assert_eq!(table.update_transaction(0, 0, "2024.04.01"), Ok(()));
    assert_eq!(dates(&table), vec!["2024.02.01", "2024.03.01", "2024.04.01"]);
    assert_eq!(table.get_cell_text(2, 2), Some("a".to_string()));
}

#[test]
fn new_rows_take_the_last_date() {
    let mut empty = TransactionsTable::new("ledger.json");
    assert!(empty.new_transaction().is_err());
    assert_eq!(empty.len(), 0);
    let mut table = ledger_with(vec![
        record("2024.01.01", 1, "a", "x", "out", "ILS"),
        record("2024.02.01", 2, "b", "x", "out", "ILS"),
    ]);
    assert_eq!(table.new_transaction(), Ok(()));
    assert_eq!(table.len(), 3);
    assert_eq!(table.get_cell_text(2, 0), Some("2024.02.01".to_string()));
    assert_eq!(table.get_cell_text(2, 1), Some("".to_string()));
    assert_eq!(table.get_cell_text(2, 2), Some("".to_string()));
}

#[test]
fn deleting_rows() {
    let mut table = ledger_with(vec![
        record("2024.01.01", 1, "a", "x", "out", "ILS"),
        record("2024.02.01", 2, "b", "x", "out", "ILS"),
    ]);
    table.delete_transaction(5);
    assert_eq!(table.len(), 2);
    table.delete_transaction(0);
    assert_eq!(table.len(), 1);
    assert_eq!(table.get_cell_text(0, 2), Some("b".to_string()));
    assert_eq!(table.get_cell_text(1, 2), None);
    assert_eq!(table.get_cell_text(0, 7), None);
}

#[test]
fn failed_commit_leaves_the_cell() {
    let mut table = ledger_with(vec![record("2024.01.05", 100, "rent", "home", "out", "ILS")]);
    let e = table.update_transaction(0, 0, "2024-02-30").unwrap_err();
    assert!(e.contains("parse"));
    assert_eq!(table.get_cell_text(0, 0), Some("2024.01.05".to_string()));
    let e = table.update_transaction(0, 1, "lots").unwrap_err();
    assert!(e.contains("parse"));
    assert_eq!(table.get_cell_text(0, 1), Some("1.00".to_string()));
    assert_eq!(table.update_transaction(3, 0, "garbage"), Ok(()));
}

#[test]
fn recommendation_takes_the_nearest_matching_row() {
    let mut table = ledger_with(vec![
        record("2024.01.01", 10000, "rent", "home", "out", "ILS"),
        record("2024.02.01", 12000, "rent", "home", "out", "ILS"),
    ]);
    table.update_recommended_input(2, 1, "");
    assert_eq!(table.get_recommended_input(""), "120.00");
    assert_eq!(table.new_transaction(), Ok(()));
    table.update_recommended_input(2, 1, "");
    assert_eq!(table.get_recommended_input(""), "120.00");
}

#[test]
fn prefix_recommendation_shows_the_rest() {
    let mut table = ledger_with(vec![
        record("2024.01.01", 500, "Starbucks", "food", "out", "ILS"),
        record("2024.01.02", 900, "Market", "food", "out", "ILS"),
        record("2024.01.03", 0, "", "", "", ""),
    ]);
    table.update_recommended_input(2, 2, "Sta");
    assert_eq!(table.get_recommended_input("Sta"), "rbucks");
    table.update_recommended_input(2, 2, "sta");
    assert_eq!(table.get_recommended_input("sta"), "");
    table.update_recommended_input(2, 2, "Sta");
    table.clear_recommended_input();
    assert_eq!(table.get_recommended_input("Sta"), "");
}

#[test]
fn commit_writes_the_suggestion() {
    let mut table = ledger_with(vec![
        record("2024.01.01", 500, "Starbucks", "food", "out", "ILS"),
        record("2024.01.03", 0, "", "", "", ""),
    ]);
    table.update_recommended_input(1, 2, "St");
    assert_eq!(table.update_transaction(1, 2, "St"), Ok(()));
    assert_eq!(table.get_cell_text(1, 2), Some("Starbucks".to_string()));
    assert_eq!(resolve_commit_text("typed", &None), "typed");
    assert_eq!(resolve_commit_text("typed", &Some("kept".to_string())), "kept");
}

fn sample_report() -> TransactionsReport {
    TransactionsReport::new(&vec![
        record("2024.01.05", 10000, "rent", "home", "out", "ILS"),
        record("2024.01.20", 2550, "food", "groceries", "out", "ILS"),
        record("2024.01.21", 1450, "food", "groceries", "out", "ILS"),
        record("2024.02.03", 50000, "pay", "salary", "in", "ILS"),
        record("2024.02.04", 7000, "gift", "misc", "out", "USD"),
        record("2023.12.30", 300, "bus", "travel", "out", "ILS"),
        record("2024.02.10", 0, "free", "misc", "out", "ILS"),
    ])
}

#[test]
fn report_months_are_most_recent_first() {
    let report = sample_report();
    assert_eq!(report.months, vec![(2024, 2), (2024, 1), (2023, 12)]);
    assert_eq!(report.rows_len(), 3);
    assert_eq!(report.get_month_at_index(1), Some(&(2024, 1)));
    assert_eq!(report.get_month_at_index(3), None);
}

#[test]
fn report_sums_are_exact() {
    let report = sample_report();
    assert_eq!(report.sum_for(&key("out", Some("groceries")), (2024, 1)), 4000);
    assert_eq!(report.sum_for(&key("out", Some("home")), (2024, 1)), 10000);
    assert_eq!(report.sum_for(&key("out", None), (2024, 1)), 14000);
    assert_eq!(report.sum_for(&key("in", None), (2024, 2)), 50000);
    assert_eq!(report.sum_for(&key("in", None), (2024, 1)), 0);
    assert_eq!(report.sum_for(&key("nowhere", None), (2024, 1)), 0);
}

#[test]
fn other_currencies_are_left_out() {
    let report = sample_report();
    assert_eq!(report.sum_for(&key("out", Some("misc")), (2024, 2)), 0);
    assert_eq!(report.sum_for(&key("out", None), (2024, 2)), 0);
    let only_usd = TransactionsReport::new(&vec![record("2024.02.04", 7000, "gift", "misc", "out", "USD")]);
    assert_eq!(only_usd.rows_len(), 0);
    assert!(only_usd.get_categories_for_month_by_index(0).is_empty());
}

#[test]
fn categories_of_a_month_skip_zero_sums() {
    let report = sample_report();
    let february = report.get_categories_for_month_by_index(0);
    assert_eq!(february, vec![key("in", None), key("in", Some("salary"))]);
    let january = report.get_categories_for_month_by_index(1);
    assert_eq!(
        january,
        vec![key("out", None), key("out", Some("groceries")), key("out", Some("home"))]
    );
    assert!(report.get_categories_for_month_by_index(9).is_empty());
    assert_eq!(report.get_category_by_index_for_month_at_index(1, 2), key("out", Some("home")));
    assert_eq!(report.get_category_by_index_for_month_at_index(1, 3), (None, None));
    assert_eq!(report.get_category_by_index_for_month_at_index(7, 0), (None, None));
}

#[test]
fn category_rows_and_month_rows() {
    let report = sample_report();
    let rows = report.get_category_rows_for_month_by_index(0);
    assert_eq!(
        rows,
        vec![
            vec!["in - *".to_string(), "500.00".to_string()],
            vec!["in - salary".to_string(), "500.00".to_string()],
            vec!["out - *".to_string(), "0.00".to_string()],
            vec!["out - misc".to_string(), "0.00".to_string()],
        ]
    );
    assert!(report.get_category_rows_for_month_by_index(5).is_empty());
    let series = report.get_month_rows(&key("out", None));
    assert_eq!(
        series,
        vec![
            ("2024.02".to_string(), 0),
            ("2024.01".to_string(), 14000),
            ("2023.12".to_string(), 300),
        ]
    );
}

#[test]
fn ledger_report_matches_its_records() {
    let table = ledger_with(vec![
        record("2024.03.01", 100, "a", "x", "out", "ILS"),
        record("2024.03.02", 250, "b", "y", "out", "ILS"),
    ]);
    let report = table.generate_report();
    assert_eq!(report.sum_for(&key("out", None), (2024, 3)), 350);
}

#[test]
fn help_panel_toggles() {
    let mut help = Instructions::oneline();
    assert_eq!(help.get_height(), 3);
    assert_eq!(help.lines().len(), 1);
    help.toggle();
    assert_eq!(help.get_height(), 12);
    assert_eq!(help.lines().len(), 10);
    help.toggle();
    assert_eq!(help.get_height(), 3);
    assert_eq!(Instructions::full().get_height(), 12);
    let _ = HelpState::Full;
}

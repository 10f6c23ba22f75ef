use ledger::date::SimpleDate;
use ledger::editor::{EditKey, InputPage};
use ledger::report::TransactionsReport;
use ledger::report_page::ReportPage;
use ledger::table::TransactionsTable;
use ledger::transaction::Transaction;

fn entry(day: &str, cents: i64, details: &str, category: &str, direction: &str) -> Transaction {
    Transaction {
        date: SimpleDate::parse(day).unwrap(),
        amount: cents,
        details: details.to_string(),
        category: category.to_string(),
        method: "cash".to_string(),
        direction: direction.to_string(),
        currency: "ILS".to_string(),
    }
}

fn page_with(records: Vec<Transaction>) -> InputPage {
    let mut table = TransactionsTable::new("book.csv");
    table.load_transactions(records);
    let mut page = InputPage::new(table);
    page.initialize_selection();
    page
}

#[test]
fn page_starts_on_the_last_row() {
    let page = page_with(vec![
        entry("2024.01.01", 100, "tea", "food", "out"),
        entry("2024.01.02", 250, "cake", "food", "out"),
    ]);
    assert_eq!(page.selected_row(), Some(1));
    assert_eq!(page.selected_column(), Some(0));
    assert_eq!(page.input(), "2024.01.02");
    assert_eq!(page.character_index(), 10);
}

#[test]
fn typing_and_deleting_characters() {
    let mut page = page_with(vec![entry("2024.01.01", 100, "tea", "food", "out")]);
    page.handle_key_events(EditKey::Tab);
    page.handle_key_events(EditKey::Tab);
    assert_eq!(page.selected_column(), Some(2));
    assert_eq!(page.input(), "tea");
    page.handle_key_events(EditKey::Char('s'));
    assert_eq!(page.input(), "teas");
    page.handle_key_events(EditKey::Home);
    page.handle_key_events(EditKey::Delete);
    assert_eq!(page.input(), "eas");
    page.handle_key_events(EditKey::End);
    page.handle_key_events(EditKey::Backspace);
    assert_eq!(page.input(), "ea");
    assert_eq!(page.character_index(), 2);
    page.handle_key_events(EditKey::Left);
    page.handle_key_events(EditKey::Char('x'));
    assert_eq!(page.input(), "exa");
}

#[test]
fn enter_commits_and_adds_a_row_at_the_end() {
    let mut page = page_with(vec![entry("2024.01.01", 100, "tea", "food", "out")]);
    page.handle_key_events(EditKey::Tab);
    page.handle_key_events(EditKey::End);
    page.handle_key_events(EditKey::Backspace);
    page.handle_key_events(EditKey::Backspace);
    page.handle_key_events(EditKey::Backspace);
    page.handle_key_events(EditKey::Backspace);
    page.handle_key_events(EditKey::Char('5'));
    page.handle_key_events(EditKey::Enter);
    assert_eq!(page.transactions_table.len(), 2);
    assert_eq!(page.transactions_table.get_cell_text(0, 1), Some("5.00".to_string()));
    assert_eq!(page.selected_row(), Some(1));
    assert_eq!(page.selected_column(), Some(0));
    assert_eq!(page.input(), "2024.01.01");
}

#[test]
fn failed_commit_shows_the_message() {
    let mut page = page_with(vec![entry("2024.01.01", 100, "tea", "food", "out")]);
    page.handle_key_events(EditKey::Char('x'));
    page.handle_key_events(EditKey::Tab);
    assert!(page.error_msg().contains("parse"));
    assert_eq!(page.selected_column(), Some(0));
    assert_eq!(page.transactions_table.get_cell_text(0, 0), Some("2024.01.01".to_string()));
}

#[test]
fn rows_move_within_the_table() {
    let mut page = page_with(vec![
        entry("2024.01.01", 100, "tea", "food", "out"),
        entry("2024.01.02", 250, "cake", "food", "out"),
    ]);
    page.handle_key_events(EditKey::Down);
    assert_eq!(page.selected_row(), Some(1));
    page.handle_key_events(EditKey::Up);
    page.handle_key_events(EditKey::Up);
    assert_eq!(page.selected_row(), Some(0));
    page.handle_key_events(EditKey::PageDown);
    assert_eq!(page.selected_row(), Some(1));
    page.handle_key_events(EditKey::PageUp);
    assert_eq!(page.selected_row(), Some(0));
    page.handle_key_events(EditKey::DeleteRow);
    assert_eq!(page.transactions_table.len(), 1);
    page.handle_key_events(EditKey::Other);
    assert_eq!(page.selected_row(), Some(0));
}

#[test]
fn report_page_moves_across_months_and_keys() {
    let report = TransactionsReport::new(&vec![
        entry("2024.01.05", 1000, "rent", "home", "out"),
        entry("2024.02.05", 2000, "rent", "home", "out"),
        entry("2024.02.06", 300, "bus", "travel", "out"),
    ]);
    let mut page = ReportPage::new();
    page.reload(report);
    assert_eq!(page.handle_key_events(EditKey::Down), Some(()));
    assert_eq!(page.month_selected(), Some(0));
    assert_eq!(page.handle_key_events(EditKey::End), Some(()));
    assert_eq!(page.category_selected(), Some(2));
    let (shown, month) = page.get_report_filter();
    assert_eq!(shown, (Some("out".to_string()), Some("travel".to_string())));
    assert_eq!(month, Some((2024, 2)));
    page.handle_key_events(EditKey::Down);
    assert_eq!(page.month_selected(), Some(1));
    assert_eq!(page.category_selected(), None);
    page.handle_key_events(EditKey::Up);
    assert_eq!(page.category_selected(), Some(2));
    assert_eq!(page.handle_key_events(EditKey::Char('q')), None);
}

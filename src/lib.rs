//! A personal ledger engine: typed transaction records with field-level
//! validation, a date-sorted ledger with history-based autocompletion, and a
//! month-by-category report.

pub mod amount;
pub mod date;
pub mod editor;
pub mod field;
pub mod instructions;
pub mod report;
pub mod report_page;
pub mod table;
pub mod text;
pub mod transaction;

//! The columns of a transaction record: their order, names and widths.

use vstd::prelude::*;
use vstd::string::*;

verus! {

/// One typed column of a transaction record.
#[derive(Clone, Copy, Debug, PartialEq, Eq, Structural)]
pub enum TransactionField {
    Date,
    Amount,
    Details,
    Category,
    Method,
    Direction,
    Currency,
}

/// The column at a position of the record layout, if there is one.
pub open spec fn field_at(index: int) -> Option<TransactionField> {
    if index == 0 {
        Some(TransactionField::Date)
    } else if index == 1 {
        Some(TransactionField::Amount)
    } else if index == 2 {
        Some(TransactionField::Details)
    } else if index == 3 {
        Some(TransactionField::Category)
    } else if index == 4 {
        Some(TransactionField::Method)
    } else if index == 5 {
        Some(TransactionField::Direction)
    } else if index == 6 {
        Some(TransactionField::Currency)
    } else {
        None
    }
}

/// The record layout: every column, in display order.
pub open spec fn field_layout() -> Seq<TransactionField> {
    seq![
        TransactionField::Date,
        TransactionField::Amount,
        TransactionField::Details,
        TransactionField::Category,
        TransactionField::Method,
        TransactionField::Direction,
        TransactionField::Currency,
    ]
}

impl TransactionField {
    /// Every column, in display order.
    pub fn all_fields() -> (r: Vec<TransactionField>)
        ensures
            r@ == field_layout(),
            forall|i: int| 0 <= i < r@.len() ==> field_at(i) == Some(#[trigger] r@[i]),
    {
        let r = vec![
            TransactionField::Date,
            TransactionField::Amount,
            TransactionField::Details,
            TransactionField::Category,
            TransactionField::Method,
            TransactionField::Direction,
            TransactionField::Currency,
        ];
        assert(r@ =~= field_layout());
        r
    }

    /// The column at `index` of the layout; `None` past the last one.
    pub fn get(index: usize) -> (r: Option<TransactionField>)
        ensures
            r == field_at(index as int),
    {
        match index {
            0 => Some(TransactionField::Date),
            1 => Some(TransactionField::Amount),
            2 => Some(TransactionField::Details),
            3 => Some(TransactionField::Category),
            4 => Some(TransactionField::Method),
            5 => Some(TransactionField::Direction),
            6 => Some(TransactionField::Currency),
            _ => None,
        }
    }

    /// The display width of each column, in layout order.
    pub fn widths() -> (r: Vec<u16>)
        ensures
            r@ == seq![11u16, 10, 100, 15, 9, 9, 9],
    {
        let r: Vec<u16> = vec![11, 10, 100, 15, 9, 9, 9];
        assert(r@ =~= seq![11u16, 10, 100, 15, 9, 9, 9]);
        r
    }

    /// The display name of each column, in layout order.
    pub fn names() -> (r: Vec<String>)
        ensures
            r@.len() == 7,
            r@[0]@ == "Date"@,
            r@[1]@ == "Amount"@,
            r@[2]@ == "Details"@,
            r@[3]@ == "Category"@,
            r@[4]@ == "Method"@,
            r@[5]@ == "Direction"@,
            r@[6]@ == "Currency"@,
    {
        let mut r: Vec<String> = Vec::new();
        r.push(String::from_str("Date"));
        r.push(String::from_str("Amount"));
        r.push(String::from_str("Details"));
        r.push(String::from_str("Category"));
        r.push(String::from_str("Method"));
        r.push(String::from_str("Direction"));
        r.push(String::from_str("Currency"));
        r
    }
}

} // verus!

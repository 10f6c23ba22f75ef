//! One ledger entry: typed fields, their text, and field-level editing.

use vstd::prelude::*;
use vstd::string::*;

use crate::amount::{amount_error, amount_reading, amount_text, format_amount, parse_amount};
use crate::date::{date_reading, date_text, SimpleDate};
use crate::field::{field_at, TransactionField};

verus! {

/// A transaction. The amount is a whole number of hundredths.
#[derive(Debug)]
pub struct Transaction {
    pub date: SimpleDate,
    pub amount: i64,
    pub details: String,
    pub category: String,
    pub method: String,
    pub direction: String,
    pub currency: String,
}

/// The text that a record shows for a column.
pub open spec fn field_text(t: Transaction, f: TransactionField) -> Seq<char> {
    match f {
        TransactionField::Date => date_text(t.date.year as int, t.date.month as int, t.date.day as int),
        TransactionField::Amount => amount_text(t.amount as int),
        TransactionField::Details => t.details@,
        TransactionField::Category => t.category@,
        TransactionField::Method => t.method@,
        TransactionField::Direction => t.direction@,
        TransactionField::Currency => t.currency@,
    }
}

/// Whether `a` and `b` agree on every column but `f`.
pub open spec fn same_except(a: Transaction, b: Transaction, f: TransactionField) -> bool {
    &&& (f != TransactionField::Date ==> a.date == b.date)
    &&& (f != TransactionField::Amount ==> a.amount == b.amount)
    &&& (f != TransactionField::Details ==> a.details == b.details)
    &&& (f != TransactionField::Category ==> a.category == b.category)
    &&& (f != TransactionField::Method ==> a.method == b.method)
    &&& (f != TransactionField::Direction ==> a.direction == b.direction)
    &&& (f != TransactionField::Currency ==> a.currency == b.currency)
}

/// Whether two records hold the same values in every column.
pub open spec fn same_values(a: Transaction, b: Transaction) -> bool {
    &&& a.date == b.date
    &&& a.amount == b.amount
    &&& a.details@ == b.details@
    &&& a.category@ == b.category@
    &&& a.method@ == b.method@
    &&& a.direction@ == b.direction@
    &&& a.currency@ == b.currency@
}

/// What editing column `index` of `t` with `input` does: `Ok(())` with the
/// record changed in that column alone, or an error message with the record
/// unchanged. Dates and amounts must parse; text columns take the input as
/// it is; an index past the layout changes nothing.
pub open spec fn edit_outcome(
    before: Transaction,
    after: Transaction,
    index: int,
    input: Seq<char>,
    r: Result<(), String>,
) -> bool {
    match field_at(index) {
        None => r is Ok && after == before,
        Some(f) => match f {
            TransactionField::Date => match date_reading(input) {
                Ok(d) => r is Ok && same_except(before, after, f) && after.date.year == d.0
                    && after.date.month == d.1 && after.date.day == d.2,
                Err(m) => r is Err && r->Err_0@ == " failed to parse as date: "@ + m && after
                    == before,
            },
            TransactionField::Amount => match amount_reading(input) {
                Some(c) => r is Ok && same_except(before, after, f) && after.amount == c,
                None => r is Err && r->Err_0@ == " failed to parse as number: "@ + amount_error(
                    input,
                ) && after == before,
            },
            _ => r is Ok && same_except(before, after, f) && field_text(after, f) == input,
        },
    }
}

/// Whether `s` holds the word "parse".
pub open spec fn mentions_parse(s: Seq<char>) -> bool {
    exists|i: int| 0 <= i && i + 5 <= s.len() && #[trigger] s.subrange(i, i + 5) == "parse"@
}

/// An edit that fails leaves the record, and so the text of each of its
/// columns, as it was, and its message says that the input did not parse.
pub proof fn lemma_failed_edit_is_no_op(
    before: Transaction,
    after: Transaction,
    index: int,
    input: Seq<char>,
    r: Result<(), String>,
)
    requires
        edit_outcome(before, after, index, input, r),
        r is Err,
    ensures
        after == before,
        forall|f: TransactionField| #[trigger] field_text(after, f) == field_text(before, f),
        mentions_parse(r->Err_0@),
{
    reveal_strlit(" failed to parse as date: ");
    reveal_strlit(" failed to parse as number: ");
    reveal_strlit("parse");
    let s = r->Err_0@;
    let d = " failed to parse as date: "@;
    let n = " failed to parse as number: "@;
    if field_at(index) == Some(TransactionField::Date) {
        assert(s.subrange(11, 16) =~= d.subrange(11, 16));
    } else {
        assert(s.subrange(11, 16) =~= n.subrange(11, 16));
    }
    assert(s.subrange(11, 16) =~= "parse"@);
    let i: int = 11;
    assert(s.subrange(i, i + 5) == "parse"@);
}

impl Clone for Transaction {
    fn clone(&self) -> (r: Transaction)
        ensures
            r == *self,
    {
        Transaction {
            date: self.date,
            amount: self.amount,
            details: self.details.clone(),
            category: self.category.clone(),
            method: self.method.clone(),
            direction: self.direction.clone(),
            currency: self.currency.clone(),
        }
    }
}

impl PartialEq for Transaction {
    fn eq(&self, other: &Transaction) -> (r: bool)
        ensures
            r == same_values(*self, *other),
    {
        self.date == other.date && self.amount == other.amount && self.details == other.details
            && self.category == other.category && self.method == other.method && self.direction
            == other.direction && self.currency == other.currency
    }
}

impl vstd::std_specs::cmp::PartialEqSpecImpl for Transaction {
    open spec fn obeys_eq_spec() -> bool {
        true
    }

    open spec fn eq_spec(&self, other: &Transaction) -> bool {
        same_values(*self, *other)
    }
}

impl Transaction {
    /// A record on `date` with every other column empty and a zero amount.
    pub fn new(date: SimpleDate) -> (r: Transaction)
        ensures
            r.date == date,
            r.amount == 0,
            r.details@.len() == 0,
            r.category@.len() == 0,
            r.method@.len() == 0,
            r.direction@.len() == 0,
            r.currency@.len() == 0,
    {
        Transaction {
            date,
            amount: 0,
            details: String::new(),
            category: String::new(),
            method: String::new(),
            direction: String::new(),
            currency: String::new(),
        }
    }

    /// Edits column `field_index` with `input` (see [`edit_outcome`]).
    pub fn mutate_field(&mut self, field_index: usize, input: &str) -> (r: Result<(), String>)
        ensures
            edit_outcome(*old(self), *final(self), field_index as int, input@, r),
    {
        match TransactionField::get(field_index) {
            Some(field) => match field {
                TransactionField::Date => match SimpleDate::parse(input) {
                    Ok(date) => self.date = date,
                    Err(e) => {
                        let mut m = String::from_str(" failed to parse as date: ");
                        m.append(e.as_str());
                        return Err(m);
                    },
                },
                TransactionField::Amount => match parse_amount(input) {
                    Ok(cents) => self.amount = cents,
                    Err(e) => {
                        let mut m = String::from_str(" failed to parse as number: ");
                        m.append(e.as_str());
                        return Err(m);
                    },
                },
                TransactionField::Details => self.details = String::from_str(input),
                TransactionField::Category => self.category = String::from_str(input),
                TransactionField::Method => self.method = String::from_str(input),
                TransactionField::Direction => self.direction = String::from_str(input),
                TransactionField::Currency => self.currency = String::from_str(input),
            },
            None => {},
        }
        Ok(())
    }

    /// The text this record shows for `field`.
    pub fn get_field_text(&self, field: &TransactionField) -> (r: String)
        ensures
            r@ == field_text(*self, *field),
    {
        match field {
            TransactionField::Date => self.date.format(),
            TransactionField::Amount => format_amount(self.amount),
            TransactionField::Details => self.details.clone(),
            TransactionField::Category => self.category.clone(),
            TransactionField::Method => self.method.clone(),
            TransactionField::Direction => self.direction.clone(),
            TransactionField::Currency => self.currency.clone(),
        }
    }

    /// The text of the column at `field_index`; `None` past the layout.
    pub fn get_column_text(&self, field_index: usize) -> (r: Option<String>)
        ensures
            match field_at(field_index as int) {
                Some(f) => r is Some && r->0@ == field_text(*self, f),
                None => r is None,
            },
    {
        match TransactionField::get(field_index) {
            Some(field) => Some(self.get_field_text(&field)),
            None => None,
        }
    }
}

} // verus!

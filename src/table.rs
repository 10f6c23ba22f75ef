//! The ledger: records kept in date order, cell-level reading and editing,
//! and autocompletion from earlier rows.

use vstd::prelude::*;
use vstd::string::*;

use crate::date::{date_key, SimpleDate};
use crate::field::{field_at, TransactionField};
use crate::report::TransactionsReport;
use crate::transaction::{
    edit_outcome, field_text, lemma_failed_edit_is_no_op, mentions_parse, Transaction,
};

verus! {

broadcast use vstd::seq_lib::group_to_multiset_ensures;

/// The storage encoding of a ledger file, chosen by its extension.
#[derive(Clone, Copy, Debug, PartialEq, Eq, Structural)]
pub enum FileType {
    Json,
    Csv,
    Unknown,
}

/// The extension of a path as `std::path::Path::extension` finds it.
pub uninterp spec fn path_extension(path: Seq<char>) -> Option<Seq<char>>;

/// Relies on `std::path::Path::extension`: the part of the file name after
/// its last `.` (none for names without one, or that start with their only
/// `.`). A `&str` path has a UTF-8 extension, so `to_str` keeps it whole.
#[verifier::external_body]
fn extension_of(path: &str) -> (r: Option<String>)
    ensures
        match r {
            Some(e) => path_extension(path@) == Some(e@),
            None => path_extension(path@) is None,
        },
{
    std::path::Path::new(path).extension().and_then(|e| e.to_str()).map(|e| e.to_string())
}

/// The encoding for a file extension: `json`, `csv`, or neither.
pub open spec fn file_type_for(extension: Option<Seq<char>>) -> FileType {
    match extension {
        Some(e) => if e == "json"@ {
            FileType::Json
        } else if e == "csv"@ {
            FileType::Csv
        } else {
            FileType::Unknown
        },
        None => FileType::Unknown,
    }
}

impl FileType {
    /// The encoding of the file at `file_path`, by its extension.
    pub fn new(file_path: &str) -> (r: FileType)
        ensures
            r == file_type_for(path_extension(file_path@)),
    {
        match extension_of(file_path) {
            Some(e) => FileType::from_extension(Some(e.as_str())),
            None => FileType::from_extension(None),
        }
    }

    /// The encoding for an extension (without its dot).
    pub fn from_extension(extension: Option<&str>) -> (r: FileType)
        ensures
            r == file_type_for(
                match extension {
                    Some(e) => Some(e@),
                    None => None,
                },
            ),
    {
        match extension {
            Some(e) => {
                let e = String::from_str(e);
                if e == String::from_str("json") {
                    FileType::Json
                } else if e == String::from_str("csv") {
                    FileType::Csv
                } else {
                    FileType::Unknown
                }
            },
            None => FileType::Unknown,
        }
    }
}

/// Whether the records' dates never decrease.
pub open spec fn sorted_by_date(s: Seq<Transaction>) -> bool {
    forall|i: int, j: int|
        0 <= i < j < s.len() ==> date_key(#[trigger] s[i].date) <= date_key(#[trigger] s[j].date)
}

/// The same records in date order; records with equal dates keep their
/// relative order.
pub fn sort_by_date(v: Vec<Transaction>) -> (r: Vec<Transaction>)
    ensures
        r@.to_multiset() == v@.to_multiset(),
        sorted_by_date(r@),
{
    let mut rest = v;
    let mut out: Vec<Transaction> = Vec::new();
    while rest.len() > 0
        invariant
            out@.to_multiset().add(rest@.to_multiset()) == v@.to_multiset(),
            sorted_by_date(out@),
        decreases rest.len(),
    {
        let ghost rest0 = rest@;
        let x = rest.pop().unwrap();
        proof {
            assert(rest0 =~= rest@.push(x));
        }
        let mut pos: usize = 0;
        while pos < out.len() && out[pos].date.is_before(&x.date)
            invariant
                pos <= out@.len(),
                forall|j: int| 0 <= j < pos ==> date_key(#[trigger] out@[j].date) < date_key(x.date),
            decreases out@.len() - pos,
        {
            pos = pos + 1;
        }
        let ghost out0 = out@;
        out.insert(pos, x);
        proof {
            assert(out@ =~= out0.insert(pos as int, x));
            assert(out@.to_multiset() =~= out0.to_multiset().insert(x));
            assert(out@.to_multiset().add(rest@.to_multiset()) =~= out0.to_multiset().add(
                rest0.to_multiset(),
            ));
            assert forall|i: int, j: int| 0 <= i < j < out@.len() implies date_key(
                #[trigger] out@[i].date,
            ) <= date_key(#[trigger] out@[j].date) by {
                if j < pos {
                } else if j == pos {
                } else if i < pos {
                    assert(out@[j] == out0[j - 1]);
                    if pos < out0.len() {
                        assert(date_key(x.date) <= date_key(out0[pos as int].date));
                        assert(date_key(out0[pos as int].date) <= date_key(out0[j - 1].date));
                    }
                } else if i == pos {
                    assert(date_key(x.date) <= date_key(out0[pos as int].date));
                    if pos < j - 1 {
                        assert(date_key(out0[pos as int].date) <= date_key(out0[j - 1].date));
                    }
                } else {
                    assert(out@[i] == out0[i - 1]);
                    assert(out@[j] == out0[j - 1]);
                }
            }
        }
    }
    proof {
        assert(rest@.to_multiset() =~= vstd::multiset::Multiset::empty());
        assert(out@.to_multiset().add(rest@.to_multiset()) =~= out@.to_multiset());
    }
    out
}

/// The index of the nearest row before `end` whose text in column `f`
/// starts with `p`.
pub open spec fn nearest_match(rows: Seq<Transaction>, end: int, f: TransactionField, p: Seq<
    char,
>) -> Option<int>
    decreases end,
{
    if end <= 0 {
        None
    } else if p.is_prefix_of(field_text(rows[end - 1], f)) {
        Some(end - 1)
    } else {
        nearest_match(rows, end - 1, f, p)
    }
}

pub proof fn lemma_nearest_match(rows: Seq<Transaction>, end: int, f: TransactionField, p: Seq<char>)
    requires
        end <= rows.len(),
    ensures
        match nearest_match(rows, end, f, p) {
            Some(i) => 0 <= i < end && p.is_prefix_of(field_text(rows[i], f)) && forall|j: int|
                i < j < end ==> !p.is_prefix_of(#[trigger] field_text(rows[j], f)),
            None => forall|j: int| 0 <= j < end ==> !p.is_prefix_of(#[trigger] field_text(rows[j], f)),
        },
    decreases end,
{
    if end > 0 && !p.is_prefix_of(field_text(rows[end - 1], f)) {
        lemma_nearest_match(rows, end - 1, f, p);
    }
}

/// The suggestion for column `f` of row `row` after typing `input`: with
/// some input, the column's text in the nearest earlier row where that text
/// starts with the input; with none, the column's text in the nearest
/// earlier row whose details start with this row's details (empty past the
/// last row).
pub open spec fn suggestion_for(rows: Seq<Transaction>, row: int, f: TransactionField, input: Seq<
    char,
>) -> Option<Seq<char>> {
    let end = if row < rows.len() { row } else { rows.len() as int };
    let found = if input.len() > 0 {
        nearest_match(rows, end, f, input)
    } else {
        let details = if 0 <= row < rows.len() { rows[row].details@ } else { Seq::empty() };
        nearest_match(rows, end, TransactionField::Details, details)
    };
    match found {
        Some(i) => Some(field_text(rows[i], f)),
        None => None,
    }
}

/// What the ghost text after the cursor shows: the part of the suggestion
/// past as many characters as were typed.
pub open spec fn visible_suffix(suggestion: Option<Seq<char>>, input: Seq<char>) -> Seq<char> {
    match suggestion {
        Some(s) => if input.len() > s.len() {
            Seq::empty()
        } else {
            s.subrange(input.len() as int, s.len() as int)
        },
        None => Seq::empty(),
    }
}

/// The text a commit writes: the pending suggestion where there is one,
/// else what was typed.
pub open spec fn committed_text(typed: Seq<char>, suggestion: Option<Seq<char>>) -> Seq<char> {
    match suggestion {
        Some(s) => s,
        None => typed,
    }
}

/// The text a commit writes: the pending suggestion where there is one,
/// else what was typed.
pub fn resolve_commit_text<'a>(typed: &'a str, suggestion: &'a Option<String>) -> (r: &'a str)
    ensures
        r@ == committed_text(
            typed@,
            match suggestion {
                Some(s) => Some(s@),
                None => None,
            },
        ),
{
    match suggestion {
        Some(s) => s.as_str(),
        None => typed,
    }
}

/// What a ledger holds, as a reader of it sees it.
pub struct LedgerView {
    pub records: Seq<Transaction>,
    pub suggestion: Option<Seq<char>>,
    pub file_path: Seq<char>,
    pub file_type: FileType,
}

/// The ledger: the records in date order, and the pending suggestion of the
/// cell being edited.
pub struct TransactionsTable {
    transactions: Vec<Transaction>,
    recommended_input: Option<String>,
    file_path: String,
    file_type: FileType,
}

impl View for TransactionsTable {
    type V = LedgerView;

    closed spec fn view(&self) -> LedgerView {
        LedgerView {
            records: self.transactions@,
            suggestion: match self.recommended_input {
                Some(s) => Some(s@),
                None => None,
            },
            file_path: self.file_path@,
            file_type: self.file_type,
        }
    }
}

impl TransactionsTable {
    /// The ledger's invariant: its records are in date order.
    pub open spec fn wf(&self) -> bool {
        sorted_by_date(self@.records)
    }

    /// An empty ledger kept in the file at `file_path`.
    pub fn new(file_path: &str) -> (r: TransactionsTable)
        ensures
            r.wf(),
            r@.records.len() == 0,
            r@.suggestion is None,
            r@.file_path == file_path@,
            r@.file_type == file_type_for(path_extension(file_path@)),
    {
        TransactionsTable {
            transactions: Vec::new(),
            recommended_input: None,
            file_path: String::from_str(file_path),
            file_type: FileType::new(file_path),
        }
    }

    /// The path of the ledger file.
    pub fn file_path(&self) -> (r: &str)
        ensures
            r@ == self@.file_path,
    {
        self.file_path.as_str()
    }

    /// The encoding to load and save with; an error for an unknown one.
    pub fn storage_format(&self) -> (r: Result<FileType, String>)
        ensures
            self@.file_type == FileType::Unknown <==> r is Err,
            r is Ok ==> r->Ok_0 == self@.file_type,
            r is Err ==> r->Err_0@ == "File type unknown"@,
    {
        match self.file_type {
            FileType::Unknown => Err(String::from_str("File type unknown")),
            t => Ok(t),
        }
    }

    /// Replaces the records with `records`, sorted by date.
    pub fn load_transactions(&mut self, records: Vec<Transaction>)
        ensures
            final(self).wf(),
            final(self)@.records.to_multiset() == records@.to_multiset(),
            final(self)@.suggestion == old(self)@.suggestion,
            final(self)@.file_path == old(self)@.file_path,
            final(self)@.file_type == old(self)@.file_type,
    {
        self.transactions = sort_by_date(records);
    }

    /// Puts the records in date order before they are written out.
    pub fn sort_for_save(&mut self)
        requires
            old(self).wf(),
        ensures
            final(self).wf(),
            final(self)@.records.to_multiset() == old(self)@.records.to_multiset(),
            final(self)@.suggestion == old(self)@.suggestion,
            final(self)@.file_path == old(self)@.file_path,
            final(self)@.file_type == old(self)@.file_type,
    {
        let mut records = Vec::new();
        std::mem::swap(&mut records, &mut self.transactions);
        self.transactions = sort_by_date(records);
    }

    /// The number of records.
    pub fn len(&self) -> (r: usize)
        ensures
            r == self@.records.len(),
    {
        self.transactions.len()
    }

    /// The records, in their current (date) order.
    pub fn records(&self) -> (r: &Vec<Transaction>)
        ensures
            r@ == self@.records,
    {
        &self.transactions
    }

    /// An iterator over the records, in their current (date) order.
    pub fn iter(&self) -> (r: std::slice::Iter<'_, Transaction>)
        ensures
            vstd::std_specs::iter::IteratorSpec::remaining(&r) == self@.records.as_ref(),
    {
        proof {
            broadcast use vstd::std_specs::slice::axiom_spec_slice_iter;

        }
        self.transactions.as_slice().iter()
    }

    /// Appends a record dated like the last one, with every other column
    /// empty. An empty ledger has no last date: it is left as it is and an
    /// error comes back.
    pub fn new_transaction(&mut self) -> (r: Result<(), String>)
        requires
            old(self).wf(),
        ensures
            final(self).wf(),
            old(self)@.records.len() == 0 <==> r is Err,
            r is Err ==> final(self)@ == old(self)@,
            r is Ok ==> {
                let n = old(self)@.records.len();
                let t = final(self)@.records[n as int];
                &&& final(self)@.records.len() == n + 1
                &&& final(self)@.records.subrange(0, n as int) == old(self)@.records
                &&& t.date == old(self)@.records[n - 1].date
                &&& t.amount == 0
                &&& t.details@.len() == 0 && t.category@.len() == 0 && t.method@.len() == 0
                &&& t.direction@.len() == 0 && t.currency@.len() == 0
                &&& final(self)@.suggestion == old(self)@.suggestion
                &&& final(self)@.file_path == old(self)@.file_path
                &&& final(self)@.file_type == old(self)@.file_type
            },
    {
        let n = self.transactions.len();
        if n == 0 {
            return Err(String::from_str("the ledger has no record to take a date from"));
        }
        let date: SimpleDate = self.transactions[n - 1].date;
        let ghost before = self.transactions@;
        self.transactions.push(Transaction::new(date));
        proof {
            assert(self.transactions@.subrange(0, n as int) =~= before);
        }
        Ok(())
    }

    /// Removes the record at `i`; an index past the end changes nothing.
    pub fn delete_transaction(&mut self, i: usize)
        requires
            old(self).wf(),
        ensures
            final(self).wf(),
            i < old(self)@.records.len() ==> final(self)@.records == old(self)@.records.remove(
                i as int,
            ),
            i >= old(self)@.records.len() ==> final(self)@.records == old(self)@.records,
            final(self)@.suggestion == old(self)@.suggestion,
            final(self)@.file_path == old(self)@.file_path,
            final(self)@.file_type == old(self)@.file_type,
    {
        if i < self.transactions.len() {
            self.transactions.remove(i);
            proof {
                let s = self.transactions@;
                assert forall|a: int, b: int| 0 <= a < b < s.len() implies date_key(
                    #[trigger] s[a].date,
                ) <= date_key(#[trigger] s[b].date) by {
                    let o = old(self)@.records;
                    let oa = if a < i { a } else { a + 1 };
                    let ob = if b < i { b } else { b + 1 };
                    assert(s[a] == o[oa] && s[b] == o[ob]);
                }
            }
        }
    }

    /// Commits `input` to the cell (`row`, `column`): the pending
    /// suggestion, where there is one, is written in place of the input
    /// (see [`edit_outcome`]). A new date puts the records back in date
    /// order. A row past the end changes nothing.
    pub fn update_transaction(&mut self, row: usize, column: usize, input: &str) -> (r: Result<
        (),
        String,
    >)
        requires
            old(self).wf(),
        ensures
            final(self).wf(),
            final(self)@.suggestion == old(self)@.suggestion,
            final(self)@.file_path == old(self)@.file_path,
            final(self)@.file_type == old(self)@.file_type,
            row >= old(self)@.records.len() ==> r is Ok && final(self)@.records
                == old(self)@.records,
            r is Err ==> final(self)@.records == old(self)@.records && mentions_parse(r->Err_0@),
            row < old(self)@.records.len() ==> exists|after: Transaction|
                {
                    &&& edit_outcome(
                        old(self)@.records[row as int],
                        after,
                        column as int,
                        committed_text(input@, old(self)@.suggestion),
                        r,
                    )
                    &&& if r is Ok && field_at(column as int) == Some(TransactionField::Date) {
                        final(self)@.records.to_multiset() == old(self)@.records.update(
                            row as int,
                            after,
                        ).to_multiset()
                    } else {
                        final(self)@.records == old(self)@.records.update(row as int, after)
                    }
                },
    {
        if row >= self.transactions.len() {
            return Ok(());
        }
        let text = resolve_commit_text(input, &self.recommended_input);
        let r = self.transactions[row].mutate_field(column, text);
        let ghost after = self.transactions@[row as int];
        if r.is_ok() && column == 0 {
            let mut records = Vec::new();
            std::mem::swap(&mut records, &mut self.transactions);
            self.transactions = sort_by_date(records);
        } else {
            proof {
                let s = self.transactions@;
                let o = old(self)@.records;
                assert(s =~= o.update(row as int, after));
                if r is Err {
                    lemma_failed_edit_is_no_op(o[row as int], after, column as int, text@, r);
                    assert(s =~= o);
                }
                if r is Ok {
                    assert forall|a: int, b: int| 0 <= a < b < s.len() implies date_key(
                        #[trigger] s[a].date,
                    ) <= date_key(#[trigger] s[b].date) by {
                        assert(s[a].date == o[a].date);
                        assert(s[b].date == o[b].date);
                    }
                }
            }
        }
        r
    }

    /// The text of the cell (`row`, `column`); `None` outside the table.
    pub fn get_cell_text(&self, row: usize, column: usize) -> (r: Option<String>)
        ensures
            (r is Some) == (row < self@.records.len() && field_at(column as int) is Some),
            r is Some ==> r->0@ == field_text(
                self@.records[row as int],
                field_at(column as int)->0,
            ),
    {
        if row < self.transactions.len() {
            self.transactions[row].get_column_text(column)
        } else {
            None
        }
    }

    /// The nearest row before `end` whose text in column `field` starts
    /// with `input`.
    fn find_recommended_transactions_by_field(
        &self,
        end: usize,
        field: &TransactionField,
        input: &str,
    ) -> (r: Option<usize>)
        requires
            end <= self@.records.len(),
        ensures
            r == (match nearest_match(self@.records, end as int, *field, input@) {
                Some(i) => Some(i as usize),
                None => None::<usize>,
            }),
    {
        let mut i: usize = end;
        while i > 0
            invariant
                i <= end <= self.transactions@.len(),
                nearest_match(self@.records, end as int, *field, input@) == nearest_match(
                    self@.records,
                    i as int,
                    *field,
                    input@,
                ),
            decreases i,
        {
            let text = self.transactions[i - 1].get_field_text(field);
            if crate::text::starts_with(text.as_str(), input) {
                return Some(i - 1);
            }
            i = i - 1;
        }
        None
    }

    /// Recomputes the pending suggestion for the cell (`row`, `column`)
    /// after `input` was typed (see [`suggestion_for`]); a column past the
    /// layout leaves it as it was.
    pub fn update_recommended_input(&mut self, row: usize, column: usize, input: &str)
        requires
            old(self).wf(),
        ensures
            final(self).wf(),
            final(self)@.records == old(self)@.records,
            final(self)@.file_path == old(self)@.file_path,
            final(self)@.file_type == old(self)@.file_type,
            final(self)@.suggestion == match field_at(column as int) {
                Some(f) => suggestion_for(old(self)@.records, row as int, f, input@),
                None => old(self)@.suggestion,
            },
    {
        if let Some(field) = TransactionField::get(column) {
            let len = self.transactions.len();
            let end = if row < len { row } else { len };
            let found = if input.unicode_len() > 0 {
                self.find_recommended_transactions_by_field(end, &field, input)
            } else {
                let details = if row < len {
                    self.transactions[row].details.clone()
                } else {
                    String::new()
                };
                proof {
                    lemma_nearest_match(self@.records, end as int, TransactionField::Details, details@);
                }
                self.find_recommended_transactions_by_field(
                    end,
                    &TransactionField::Details,
                    details.as_str(),
                )
            };
            proof {
                lemma_nearest_match(self@.records, end as int, field, input@);
            }
            self.recommended_input = match found {
                Some(i) => Some(self.transactions[i].get_field_text(&field)),
                None => None,
            };
        }
    }

    /// The ghost text after the cursor: the pending suggestion past as many
    /// characters as `input` has (see [`visible_suffix`]).
    pub fn get_recommended_input(&self, input: &str) -> (r: &str)
        ensures
            r@ == visible_suffix(self@.suggestion, input@),
    {
        proof {
            reveal_strlit("");
        }
        match &self.recommended_input {
            Some(rec) => {
                let typed = input.unicode_len();
                let whole = rec.as_str().unicode_len();
                if typed > whole {
                    ""
                } else {
                    rec.as_str().substring_char(typed, whole)
                }
            },
            None => "",
        }
    }

    /// The report of the current records.
    pub fn generate_report(&self) -> (r: TransactionsReport)
        ensures
            r.wf(),
            r@.source == self@.records,
    {
        TransactionsReport::new(&self.transactions)
    }

    /// Drops the pending suggestion.
    pub fn clear_recommended_input(&mut self)
        requires
            old(self).wf(),
        ensures
            final(self).wf(),
            final(self)@.records == old(self)@.records,
            final(self)@.suggestion is None,
            final(self)@.file_path == old(self)@.file_path,
            final(self)@.file_type == old(self)@.file_type,
    {
        self.recommended_input = None;
    }
}

} // verus!

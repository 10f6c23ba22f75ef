//! The editing page: which cell is selected, the text being typed into it
//! with its cursor, and what each key does to them and to the ledger.

use vstd::prelude::*;
use vstd::string::*;

use crate::field::field_at;
use crate::table::{sorted_by_date, suggestion_for, LedgerView, TransactionsTable};
use crate::transaction::{field_text, mentions_parse};

verus! {

/// The index of the last column of the record layout.
pub const LAST_COLUMN: usize = 6;

/// A key press, as far as the editing page tells keys apart.
#[derive(Clone, Copy, Debug, PartialEq, Eq, Structural)]
pub enum EditKey {
    Enter,
    Tab,
    BackTab,
    Down,
    Up,
    PageUp,
    PageDown,
    DeleteRow,
    Backspace,
    Delete,
    Left,
    Right,
    End,
    Home,
    Char(char),
    Other,
}

/// Relies on `char::to_string`: the text of one character.
#[verifier::external_body]
fn char_text(c: char) -> (r: String)
    ensures
        r@ == seq![c],
{
    c.to_string()
}

/// What the editing page holds, as a reader sees it.
pub struct EditorView {
    pub table: LedgerView,
    pub row: Option<usize>,
    pub column: Option<usize>,
    pub cursor: nat,
    pub input: Seq<char>,
    pub error: Seq<char>,
}

/// Whether the selection names a cell of the table.
pub open spec fn on_cell(v: EditorView) -> bool {
    &&& v.row is Some
    &&& v.column is Some
    &&& v.row->0 < v.table.records.len()
    &&& field_at(v.column->0 as int) is Some
}

/// Whether the page shows the selected cell afresh: its text, the cursor
/// at its end, no error, and the suggestion for it.
pub open spec fn shows_cell(v: EditorView) -> bool {
    let f = field_at(v.column->0 as int)->0;
    let row = v.row->0 as int;
    &&& v.input == field_text(v.table.records[row], f)
    &&& v.cursor == v.input.len()
    &&& v.error.len() == 0
    &&& v.table.suggestion == suggestion_for(v.table.records, row, f, v.input)
}

/// After a move, the page shows the selected cell afresh where there is
/// one, and keeps what it showed where there is none.
pub open spec fn settled(before: EditorView, after: EditorView) -> bool {
    if on_cell(after) {
        shows_cell(after)
    } else {
        &&& after.input == before.input
        &&& after.cursor == before.cursor
        &&& after.error == before.error
        &&& after.table.suggestion == before.table.suggestion
    }
}

/// Whether the table's records, file and suggestion are as they were.
pub open spec fn same_table(a: LedgerView, b: LedgerView) -> bool {
    &&& a.records == b.records
    &&& a.suggestion == b.suggestion
    &&& a.file_path == b.file_path
    &&& a.file_type == b.file_type
}

/// The editing page of the ledger.
pub struct InputPage {
    pub transactions_table: TransactionsTable,
    selected_row: Option<usize>,
    selected_column: Option<usize>,
    character_index: usize,
    input: String,
    error_msg: String,
}

impl View for InputPage {
    type V = EditorView;

    closed spec fn view(&self) -> EditorView {
        EditorView {
            table: self.transactions_table@,
            row: self.selected_row,
            column: self.selected_column,
            cursor: self.character_index as nat,
            input: self.input@,
            error: self.error_msg@,
        }
    }
}

impl InputPage {
    /// The page's invariant: the ledger's.
    pub open spec fn wf(&self) -> bool {
        sorted_by_date(self@.table.records)
    }

    /// A page on `transactions_table`, on its first row, with no column
    /// selected.
    pub fn new(transactions_table: TransactionsTable) -> (r: InputPage)
        requires
            transactions_table.wf(),
        ensures
            r.wf(),
            r@.table == transactions_table@,
            r@.row == Some(0usize),
            r@.column is None,
            r@.cursor == 1,
            r@.input.len() == 0,
            r@.error.len() == 0,
    {
        InputPage {
            transactions_table,
            selected_row: Some(0),
            selected_column: None,
            character_index: 1,
            input: String::new(),
            error_msg: String::new(),
        }
    }

    /// The selected row, if any.
    pub fn selected_row(&self) -> (r: Option<usize>)
        ensures
            r == self@.row,
    {
        self.selected_row
    }

    /// The selected column, if any.
    pub fn selected_column(&self) -> (r: Option<usize>)
        ensures
            r == self@.column,
    {
        self.selected_column
    }

    /// The cursor, in characters from the start of the input.
    pub fn character_index(&self) -> (r: usize)
        ensures
            r == self@.cursor,
    {
        self.character_index
    }

    /// The text being typed.
    pub fn input(&self) -> (r: &str)
        ensures
            r@ == self@.input,
    {
        self.input.as_str()
    }

    /// The message of the last failed commit, or empty.
    pub fn error_msg(&self) -> (r: &str)
        ensures
            r@ == self@.error,
    {
        self.error_msg.as_str()
    }

    /// Selects the last row, then the next column: where a page starts
    /// once the ledger is loaded.
    pub fn initialize_selection(&mut self)
        requires
            old(self).wf(),
        ensures
            final(self).wf(),
            final(self)@.table.records == old(self)@.table.records,
            old(self)@.column is None && old(self)@.table.records.len() > 0 ==> {
                &&& final(self)@.row == Some((old(self)@.table.records.len() - 1) as usize)
                &&& final(self)@.column == Some(0usize)
                &&& shows_cell(final(self)@)
            },
    {
        self.last_row();
        self.next_column();
    }

    /// Shows the selected cell afresh, where the selection names one.
    fn update_editing_text(&mut self)
        requires
            old(self).wf(),
        ensures
            final(self).wf(),
            final(self)@.row == old(self)@.row,
            final(self)@.column == old(self)@.column,
            final(self)@.table.records == old(self)@.table.records,
            final(self)@.table.file_path == old(self)@.table.file_path,
            final(self)@.table.file_type == old(self)@.table.file_type,
            settled(old(self)@, final(self)@),
    {
        if let Some(row) = self.selected_row {
            if let Some(column) = self.selected_column {
                if let Some(editing_text) = self.transactions_table.get_cell_text(row, column) {
                    self.input = editing_text;
                    self.error_msg = String::new();
                    self.character_index = self.input.as_str().unicode_len();
                    self.transactions_table.update_recommended_input(
                        row,
                        column,
                        self.input.as_str(),
                    );
                }
            }
        }
    }

    /// Selects row `i` and shows its cell.
    fn update_selected(&mut self, i: usize)
        requires
            old(self).wf(),
        ensures
            final(self).wf(),
            final(self)@.row == Some(i),
            final(self)@.column == old(self)@.column,
            final(self)@.table.records == old(self)@.table.records,
            final(self)@.table.file_path == old(self)@.table.file_path,
            final(self)@.table.file_type == old(self)@.table.file_type,
            settled(old(self)@, final(self)@),
    {
        self.selected_row = Some(i);
        self.update_editing_text();
    }

    /// Deletes the selected row.
    pub fn delete_transaction(&mut self)
        requires
            old(self).wf(),
        ensures
            final(self).wf(),
            final(self)@.row == old(self)@.row,
            final(self)@.column == old(self)@.column,
            final(self)@.input == old(self)@.input,
            match old(self)@.row {
                Some(i) => if i < old(self)@.table.records.len() {
                    final(self)@.table.records == old(self)@.table.records.remove(i as int)
                } else {
                    final(self)@.table.records == old(self)@.table.records
                },
                None => final(self)@.table.records == old(self)@.table.records,
            },
    {
        if let Some(i) = self.selected_row {
            self.transactions_table.delete_transaction(i);
        }
    }

    /// Moves to the next row. Past the last row, `add_new_row_if_end`
    /// appends a record dated like the last one and selects it; otherwise
    /// the last row stays selected.
    pub fn next_row(&mut self, add_new_row_if_end: bool)
        requires
            old(self).wf(),
        ensures
            final(self).wf(),
            final(self)@.column == old(self)@.column,
            settled(old(self)@, final(self)@),
            ({
                let n = old(self)@.table.records.len();
                match old(self)@.row {
                    Some(i) => if i + 1 < n {
                        final(self)@.row == Some((i + 1) as usize) && final(self)@.table.records
                            == old(self)@.table.records
                    } else if n == 0 {
                        final(self)@.row == Some(0usize) && final(self)@.table.records
                            == old(self)@.table.records
                    } else if add_new_row_if_end {
                        &&& final(self)@.row == Some(n as usize)
                        &&& final(self)@.table.records.len() == n + 1
                        &&& final(self)@.table.records.subrange(0, n as int)
                            == old(self)@.table.records
                        &&& final(self)@.table.records[n as int].date
                            == old(self)@.table.records[n - 1].date
                    } else {
                        final(self)@.row == Some((n - 1) as usize) && final(self)@.table.records
                            == old(self)@.table.records
                    },
                    None => final(self)@.row == Some(0usize) && final(self)@.table.records
                        == old(self)@.table.records,
                }
            }),
    {
        let len = self.transactions_table.len();
        let i = match self.selected_row {
            Some(i) => {
                if len == 0 {
                    0
                } else if i >= len - 1 {
                    if add_new_row_if_end {
                        let _ = self.transactions_table.new_transaction();
                        let last = self.transactions_table.len() - 1;
                        self.update_selected(last);
                    }
                    self.transactions_table.len() - 1
                } else {
                    i + 1
                }
            },
            None => 0,
        };
        self.update_selected(i);
    }

    /// Moves to the previous row; the first row stays selected.
    pub fn previous_row(&mut self)
        requires
            old(self).wf(),
        ensures
            final(self).wf(),
            final(self)@.column == old(self)@.column,
            final(self)@.table.records == old(self)@.table.records,
            settled(old(self)@, final(self)@),
            final(self)@.row == Some(
                match old(self)@.row {
                    Some(i) => if i == 0 {
                        0usize
                    } else {
                        (i - 1) as usize
                    },
                    None => 0usize,
                },
            ),
    {
        let i = match self.selected_row {
            Some(i) => if i == 0 {
                0
            } else {
                i - 1
            },
            None => 0,
        };
        self.update_selected(i);
    }

    /// Moves to the first row.
    pub fn first_row(&mut self)
        requires
            old(self).wf(),
        ensures
            final(self).wf(),
            final(self)@.row == Some(0usize),
            final(self)@.column == old(self)@.column,
            final(self)@.table.records == old(self)@.table.records,
            settled(old(self)@, final(self)@),
    {
        self.update_selected(0);
    }

    /// Moves to the last row; an empty ledger has none, and nothing moves.
    pub fn last_row(&mut self)
        requires
            old(self).wf(),
        ensures
            final(self).wf(),
            final(self)@.column == old(self)@.column,
            final(self)@.table.records == old(self)@.table.records,
            old(self)@.table.records.len() > 0 ==> final(self)@.row == Some(
                (old(self)@.table.records.len() - 1) as usize,
            ) && settled(old(self)@, final(self)@),
            old(self)@.table.records.len() == 0 ==> final(self)@ == old(self)@,
    {
        let len = self.transactions_table.len();
        if len > 0 {
            self.update_selected(len - 1);
        }
    }

    /// Selects the first column.
    pub fn select_first_column(&mut self)
        ensures
            final(self)@ == (EditorView { column: Some(0usize), ..old(self)@ }),
            final(self).wf() == old(self).wf(),
    {
        self.selected_column = Some(0);
    }

    /// Moves to the next column; from the last one, to the first column of
    /// the next row (without adding one).
    pub fn next_column(&mut self)
        requires
            old(self).wf(),
        ensures
            final(self).wf(),
            final(self)@.table.records == old(self)@.table.records,
            old(self)@.column == Some(LAST_COLUMN) ==> final(self)@.column == Some(0usize),
            old(self)@.column != Some(LAST_COLUMN) ==> final(self)@.column == Some(
                match old(self)@.column {
                    Some(c) => if c < LAST_COLUMN {
                        (c + 1) as usize
                    } else {
                        LAST_COLUMN
                    },
                    None => 0usize,
                },
            ) && final(self)@.row == old(self)@.row,
            on_cell(final(self)@) ==> shows_cell(final(self)@),
            !on_cell(final(self)@) ==> final(self)@.error == old(self)@.error,
    {
        if self.selected_column == Some(LAST_COLUMN) {
            self.select_first_column();
            self.next_row(false);
        } else {
            let next = match self.selected_column {
                Some(c) => if c < LAST_COLUMN {
                    c + 1
                } else {
                    LAST_COLUMN
                },
                None => 0,
            };
            self.selected_column = Some(next);
        }
        self.update_editing_text();
    }

    /// Moves to the previous column; the first one stays selected, and with
    /// none selected the last one is.
    pub fn previous_column(&mut self)
        requires
            old(self).wf(),
        ensures
            final(self).wf(),
            final(self)@.table.records == old(self)@.table.records,
            final(self)@.row == old(self)@.row,
            final(self)@.column == Some(
                match old(self)@.column {
                    Some(c) => if c == 0 {
                        0usize
                    } else if c > LAST_COLUMN {
                        LAST_COLUMN
                    } else {
                        (c - 1) as usize
                    },
                    None => LAST_COLUMN,
                },
            ),
            on_cell(final(self)@) ==> shows_cell(final(self)@),
            !on_cell(final(self)@) ==> final(self)@.error == old(self)@.error,
    {
        let previous = match self.selected_column {
            Some(c) => if c == 0 {
                0
            } else if c > LAST_COLUMN {
                LAST_COLUMN
            } else {
                c - 1
            },
            None => LAST_COLUMN,
        };
        self.selected_column = Some(previous);
        self.update_editing_text();
    }

    /// `position`, kept within the input.
    fn clamp_cursor(&self, position: usize) -> (r: usize)
        ensures
            r == if position > self@.input.len() {
                self@.input.len() as usize
            } else {
                position
            },
    {
        let count = self.input.as_str().unicode_len();
        if position > count {
            count
        } else {
            position
        }
    }

    /// Moves the cursor one character right, up to the end of the input.
    pub fn move_cursor_right(&mut self)
        ensures
            ({
                let moved = if old(self)@.cursor == usize::MAX {
                    old(self)@.cursor
                } else {
                    old(self)@.cursor + 1
                };
                final(self)@ == (EditorView {
                    cursor: if moved > old(self)@.input.len() {
                        old(self)@.input.len()
                    } else {
                        moved
                    },
                    ..old(self)@
                })
            }),
            final(self).wf() == old(self).wf(),
    {
        let moved = self.character_index.saturating_add(1);
        self.character_index = self.clamp_cursor(moved);
    }

    /// Moves the cursor to the end of the input.
    pub fn move_cursor_to_end(&mut self)
        ensures
            final(self)@ == (EditorView { cursor: old(self)@.input.len(), ..old(self)@ }),
            final(self).wf() == old(self).wf(),
    {
        let end = self.input.as_str().unicode_len();
        self.character_index = self.clamp_cursor(end);
    }

    /// Moves the cursor one character left, down to the start.
    pub fn move_cursor_left(&mut self)
        ensures
            final(self)@ == (EditorView {
                cursor: if old(self)@.cursor == 0 {
                    0
                } else if old(self)@.cursor - 1 > old(self)@.input.len() {
                    old(self)@.input.len()
                } else {
                    (old(self)@.cursor - 1) as nat
                },
                ..old(self)@
            }),
            final(self).wf() == old(self).wf(),
    {
        let moved = self.character_index.saturating_sub(1);
        self.character_index = self.clamp_cursor(moved);
    }

    /// Moves the cursor to the start of the input.
    pub fn move_cursor_home(&mut self)
        ensures
            final(self)@ == (EditorView { cursor: 0, ..old(self)@ }),
            final(self).wf() == old(self).wf(),
    {
        self.character_index = self.clamp_cursor(0);
    }

    /// Recomputes the suggestion for the selected cell from the input.
    fn update_recommendation(&mut self)
        requires
            old(self).wf(),
        ensures
            final(self).wf(),
            final(self)@.table.records == old(self)@.table.records,
            final(self)@.input == old(self)@.input,
            final(self)@.cursor == old(self)@.cursor,
            final(self)@.row == old(self)@.row,
            final(self)@.column == old(self)@.column,
            final(self)@.error == old(self)@.error,
            (old(self)@.row is Some && old(self)@.column is Some && field_at(
                old(self)@.column->0 as int,
            ) is Some) ==> final(self)@.table.suggestion == suggestion_for(
                old(self)@.table.records,
                old(self)@.row->0 as int,
                field_at(old(self)@.column->0 as int)->0,
                old(self)@.input,
            ),
    {
        if let Some(row) = self.selected_row {
            if let Some(column) = self.selected_column {
                self.transactions_table.update_recommended_input(row, column, self.input.as_str());
            }
        }
    }

    /// Types `ch` at the cursor and moves the cursor past it.
    pub fn enter_char(&mut self, ch: char)
        requires
            old(self).wf(),
        ensures
            final(self).wf(),
            final(self)@.table.records == old(self)@.table.records,
            final(self)@.row == old(self)@.row,
            final(self)@.column == old(self)@.column,
            ({
                let at = if old(self)@.cursor > old(self)@.input.len() {
                    old(self)@.input.len() as int
                } else {
                    old(self)@.cursor as int
                };
                final(self)@.input == old(self)@.input.insert(at, ch)
            }),
    {
        let count = self.input.as_str().unicode_len();
        let at = if self.character_index > count {
            count
        } else {
            self.character_index
        };
        let mut text = String::from_str(self.input.as_str().substring_char(0, at));
        let c = char_text(ch);
        text.append(c.as_str());
        text.append(self.input.as_str().substring_char(at, count));
        proof {
            assert(text@ =~= self.input@.insert(at as int, ch));
        }
        self.input = text;
        self.move_cursor_right();
        self.update_recommendation();
    }

    /// Deletes the character before the cursor, where there is one.
    pub fn delete_char(&mut self)
        requires
            old(self).wf(),
        ensures
            final(self).wf(),
            final(self)@.table.records == old(self)@.table.records,
            final(self)@.row == old(self)@.row,
            final(self)@.column == old(self)@.column,
            old(self)@.cursor == 0 ==> final(self)@ == old(self)@,
            old(self)@.cursor > 0 && old(self)@.cursor <= old(self)@.input.len()
                ==> final(self)@.input == old(self)@.input.remove(old(self)@.cursor - 1)
                && final(self)@.cursor == old(self)@.cursor - 1,
    {
        if self.character_index != 0 {
            let count = self.input.as_str().unicode_len();
            let current = self.character_index;
            let before_end = if current - 1 > count {
                count
            } else {
                current - 1
            };
            let after_start = if current > count {
                count
            } else {
                current
            };
            let mut text = String::from_str(self.input.as_str().substring_char(0, before_end));
            text.append(self.input.as_str().substring_char(after_start, count));
            proof {
                if current <= count {
                    assert(text@ =~= self.input@.remove(current - 1));
                }
            }
            self.input = text;
            self.move_cursor_left();
            self.update_recommendation();
        }
    }

    /// Deletes the character after the cursor; at the end of the input,
    /// drops the suggestion instead.
    pub fn delete_char_forward(&mut self)
        requires
            old(self).wf(),
        ensures
            final(self).wf(),
            final(self)@.table.records == old(self)@.table.records,
            final(self)@.row == old(self)@.row,
            final(self)@.column == old(self)@.column,
            old(self)@.cursor < old(self)@.input.len() && old(self)@.cursor < usize::MAX
                ==> final(self)@.input
                == old(self)@.input.remove(old(self)@.cursor as int) && final(self)@.cursor
                == old(self)@.cursor,
            old(self)@.cursor >= old(self)@.input.len() ==> final(self)@.input
                == old(self)@.input && final(self)@.table.suggestion is None,
    {
        let current = self.character_index;
        let ghost before = self@;
        self.move_cursor_right();
        if self.character_index > current {
            assert(self@.cursor == current + 1 && self@.input == before.input);
            self.delete_char();
        } else {
            self.transactions_table.clear_recommended_input();
        }
    }

    /// Commits the input to the selected cell (see
    /// [`TransactionsTable::update_transaction`]).
    pub fn commit_input(&mut self) -> (r: Result<(), String>)
        requires
            old(self).wf(),
        ensures
            final(self).wf(),
            final(self)@.row == old(self)@.row,
            final(self)@.column == old(self)@.column,
            final(self)@.input == old(self)@.input,
            final(self)@.error == old(self)@.error,
            (old(self)@.row is None || old(self)@.column is None) ==> r is Ok && final(self)@
                == old(self)@,
            r is Err ==> final(self)@.table.records == old(self)@.table.records && mentions_parse(
                r->Err_0@,
            ),
    {
        if let Some(row) = self.selected_row {
            if let Some(column) = self.selected_column {
                return self.transactions_table.update_transaction(row, column, self.input.as_str());
            }
        }
        Ok(())
    }

    /// What a key does: Enter commits and moves to the first column of the
    /// next row (adding one past the end), Tab and Shift-Tab commit and move
    /// across columns, a failed commit shows its message instead; the arrow
    /// and paging keys move the selection or the cursor; Backspace and
    /// Delete delete characters; other characters are typed.
    pub fn handle_key_events(&mut self, key: EditKey)
        requires
            old(self).wf(),
        ensures
            final(self).wf(),
            key == EditKey::Other ==> final(self)@ == old(self)@,
            ({
                let o = old(self)@;
                let f = final(self)@;
                let n = o.table.records.len();
                &&& (key == EditKey::Down || key == EditKey::Up || key == EditKey::PageUp || key
                    == EditKey::PageDown) ==> f.table.records == o.table.records && f.column
                    == o.column && settled(o, f)
                &&& key == EditKey::PageUp ==> f.row == Some(0usize)
                &&& key == EditKey::PageDown && n > 0 ==> f.row == Some((n - 1) as usize)
                &&& key == EditKey::Up ==> f.row == Some(
                    match o.row {
                        Some(i) => if i == 0 {
                            0usize
                        } else {
                            (i - 1) as usize
                        },
                        None => 0usize,
                    },
                )
                &&& key == EditKey::Down ==> f.row == Some(
                    match o.row {
                        Some(i) => if i + 1 < n {
                            (i + 1) as usize
                        } else if n == 0 {
                            0usize
                        } else {
                            (n - 1) as usize
                        },
                        None => 0usize,
                    },
                )
                &&& key == EditKey::DeleteRow ==> f.row == o.row && match o.row {
                    Some(i) => if i < n {
                        f.table.records == o.table.records.remove(i as int)
                    } else {
                        f.table.records == o.table.records
                    },
                    None => f.table.records == o.table.records,
                }
                &&& (key == EditKey::Left || key == EditKey::Right || key == EditKey::Home || key
                    == EditKey::End) ==> f.table == o.table && f.input == o.input && f.row == o.row
                    && f.column == o.column
                &&& key == EditKey::Home ==> f.cursor == 0
                &&& key == EditKey::End ==> f.cursor == o.input.len()
                &&& forall|c: char|
                    key == EditKey::Char(c) ==> {
                        let at = if o.cursor > o.input.len() {
                            o.input.len() as int
                        } else {
                            o.cursor as int
                        };
                        f.input == o.input.insert(at, c) && f.table.records == o.table.records
                    }
                &&& (key == EditKey::Enter || key == EditKey::Tab || key == EditKey::BackTab)
                    ==> (f.error.len() > 0 && f.error != o.error ==> f.table.records
                    == o.table.records && mentions_parse(f.error))
            }),
    {
        match key {
            EditKey::Enter => match self.commit_input() {
                Ok(()) => {
                    self.select_first_column();
                    self.next_row(true);
                },
                Err(error) => self.error_msg = error,
            },
            EditKey::Tab => match self.commit_input() {
                Ok(()) => self.next_column(),
                Err(error) => self.error_msg = error,
            },
            EditKey::BackTab => match self.commit_input() {
                Ok(()) => self.previous_column(),
                Err(error) => self.error_msg = error,
            },
            EditKey::Down => self.next_row(false),
            EditKey::Up => self.previous_row(),
            EditKey::PageUp => self.first_row(),
            EditKey::PageDown => self.last_row(),
            EditKey::DeleteRow => self.delete_transaction(),
            EditKey::Backspace => self.delete_char(),
            EditKey::Delete => self.delete_char_forward(),
            EditKey::Left => self.move_cursor_left(),
            EditKey::Right => self.move_cursor_right(),
            EditKey::End => self.move_cursor_to_end(),
            EditKey::Home => self.move_cursor_home(),
            EditKey::Char(c) => self.enter_char(c),
            EditKey::Other => {},
        }
    }
}

} // verus!

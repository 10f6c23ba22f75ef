//! The report page: a selected month and a selected key of the report, and
//! what the navigation keys do to them.

use vstd::prelude::*;

use crate::editor::EditKey;
use crate::report::{
    copy_key, key_view, key_views, nonzero_keys, DirectionAndCategory, KeyView, MonthInYear,
    TransactionsReport,
};

verus! {

/// The row after `selected` in a list of `len` rows; the last row stays,
/// and with nothing selected the first row is.
pub open spec fn next_index(selected: Option<usize>, len: usize) -> usize {
    let last = if len == 0 { 0 } else { (len - 1) as usize };
    match selected {
        Some(i) => if i >= last { last } else { (i + 1) as usize },
        None => 0,
    }
}

/// The row before `selected`; from the first row, no row.
pub open spec fn previous_index(selected: Option<usize>) -> Option<usize> {
    match selected {
        Some(i) => if i == 0 { None } else { Some((i - 1) as usize) },
        None => Some(0),
    }
}

/// The last of `len` rows, if there is one.
pub open spec fn last_index(len: usize) -> Option<usize> {
    if len == 0 { None } else { Some((len - 1) as usize) }
}

fn next_row(selected: Option<usize>, rows_len: usize) -> (r: Option<usize>)
    ensures
        r == Some(next_index(selected, rows_len)),
{
    let last = rows_len.saturating_sub(1);
    match selected {
        Some(i) => if i >= last { Some(last) } else { Some(i + 1) },
        None => Some(0),
    }
}

fn previous_row(selected: Option<usize>) -> (r: Option<usize>)
    ensures
        r == previous_index(selected),
{
    match selected {
        Some(i) => if i == 0 { None } else { Some(i - 1) },
        None => Some(0),
    }
}

fn last_row(rows_len: usize) -> (r: Option<usize>)
    ensures
        r == last_index(rows_len),
{
    if rows_len == 0 { None } else { Some(rows_len - 1) }
}

/// What the report page holds, as a reader sees it.
pub struct ReportPageView {
    pub report: TransactionsReport,
    pub selected_category: KeyView,
    pub month: Option<usize>,
    pub category: Option<usize>,
}

/// The report page: the report, the selected month and key rows, and the
/// key that the month list shows.
pub struct ReportPage {
    pub report: TransactionsReport,
    selected_category: DirectionAndCategory,
    month_selected: Option<usize>,
    category_selected: Option<usize>,
}

impl View for ReportPage {
    type V = ReportPageView;

    closed spec fn view(&self) -> ReportPageView {
        ReportPageView {
            report: self.report,
            selected_category: key_view(self.selected_category),
            month: self.month_selected,
            category: self.category_selected,
        }
    }
}

/// The keys of the month at `index`, as the report lists them for it.
pub open spec fn month_keys(report: TransactionsReport, index: Option<usize>) -> Seq<KeyView> {
    match index {
        Some(i) => if i < report@.months.len() {
            nonzero_keys(report@, report@.months[i as int])
        } else {
            Seq::empty()
        },
        None => Seq::empty(),
    }
}

impl ReportPage {
    /// A page on an empty report, with nothing selected.
    pub fn new() -> (r: ReportPage)
        ensures
            r@.report.wf(),
            r@.selected_category == (None::<Seq<char>>, None::<Seq<char>>),
            r@.month is None,
            r@.category is None,
    {
        ReportPage {
            report: TransactionsReport::new(&Vec::new()),
            selected_category: (None, None),
            month_selected: None,
            category_selected: None,
        }
    }

    /// Shows `report` instead of the current one.
    pub fn reload(&mut self, report: TransactionsReport)
        ensures
            final(self)@ == (ReportPageView { report, ..old(self)@ }),
    {
        self.report = report;
    }

    /// The selected month row, if any.
    pub fn month_selected(&self) -> (r: Option<usize>)
        ensures
            r == self@.month,
    {
        self.month_selected
    }

    /// The selected key row, if any.
    pub fn category_selected(&self) -> (r: Option<usize>)
        ensures
            r == self@.category,
    {
        self.category_selected
    }

    /// The keys of the month at `index` (none without a month).
    fn categories_of(&self, index: Option<usize>) -> (r: Vec<DirectionAndCategory>)
        requires
            self@.report.wf(),
        ensures
            key_views(r@) == month_keys(self@.report, index),
    {
        match index {
            Some(i) => {
                let r = self.report.get_categories_for_month_by_index(i);
                proof {
                    if i >= self@.report@.months.len() {
                        assert(key_views(r@) =~= Seq::<KeyView>::empty());
                    }
                }
                r
            },
            None => {
                let r = Vec::new();
                proof {
                    assert(key_views(r@) =~= Seq::<KeyView>::empty());
                }
                r
            },
        }
    }

    /// Takes the key under the selected rows as the one the month list
    /// shows; `(None, None)` where the rows name none.
    fn set_selected_category(&mut self)
        requires
            old(self)@.report.wf(),
        ensures
            final(self)@.report == old(self)@.report,
            final(self)@.month == old(self)@.month,
            final(self)@.category == old(self)@.category,
            final(self)@.selected_category == (match (old(self)@.month, old(self)@.category) {
                (Some(m), Some(c)) => if c < month_keys(old(self)@.report, Some(m)).len() {
                    month_keys(old(self)@.report, Some(m))[c as int]
                } else {
                    (None, None)
                },
                _ => (None, None),
            }),
    {
        match (self.month_selected, self.category_selected) {
            (Some(m), Some(c)) => {
                self.selected_category = self.report.get_category_by_index_for_month_at_index(m, c);
            },
            _ => {
                self.selected_category = (None, None);
            },
        }
    }

    /// Selects the row of the shown key among the selected month's keys,
    /// or none where it is not among them. With no key shown, nothing
    /// changes.
    fn set_category_index(&mut self)
        requires
            old(self)@.report.wf(),
        ensures
            final(self)@.report == old(self)@.report,
            final(self)@.month == old(self)@.month,
            final(self)@.selected_category == old(self)@.selected_category,
            ({
                let shown = old(self)@.selected_category;
                let ks = month_keys(old(self)@.report, old(self)@.month);
                if shown == (None::<Seq<char>>, None::<Seq<char>>) {
                    final(self)@.category == old(self)@.category
                } else {
                    match final(self)@.category {
                        Some(c) => c < ks.len() && ks[c as int] == shown && forall|j: int|
                            0 <= j < c ==> ks[j] != shown,
                        None => !ks.contains(shown),
                    }
                }
            }),
    {
        if self.selected_category.0.is_none() && self.selected_category.1.is_none() {
            return;
        }
        let keys = self.categories_of(self.month_selected);
        let ghost ks = key_views(keys@);
        let mut i: usize = 0;
        while i < keys.len()
            invariant
                i <= keys@.len(),
                ks == key_views(keys@),
                ks == month_keys(old(self)@.report, old(self)@.month),
                self@ == old(self)@,
                old(self)@.selected_category != (None::<Seq<char>>, None::<Seq<char>>),
                forall|j: int| 0 <= j < i ==> ks[j] != old(self)@.selected_category,
            decreases keys@.len() - i,
        {
            if crate::report::same_key(&keys[i], &self.selected_category) {
                assert(ks[i as int] == key_view(keys@[i as int]));
                self.category_selected = Some(i);
                return;
            }
            i = i + 1;
        }
        self.category_selected = None;
    }

    /// What a navigation key does: Down, Up, PageUp and PageDown move the
    /// month row and find the shown key in it; Right, Left, Home and End
    /// move the key row and show its key. `None` for any other key.
    pub fn handle_key_events(&mut self, key: EditKey) -> (r: Option<()>)
        requires
            old(self)@.report.wf(),
        ensures
            final(self)@.report == old(self)@.report,
            (r is None) == !(key == EditKey::Down || key == EditKey::Up || key == EditKey::PageUp
                || key == EditKey::PageDown || key == EditKey::Right || key == EditKey::Left || key
                == EditKey::Home || key == EditKey::End),
            r is None ==> final(self)@ == old(self)@,
            key == EditKey::Down ==> final(self)@.month == Some(
                next_index(old(self)@.month, old(self)@.report@.months.len() as usize),
            ),
            key == EditKey::Up ==> final(self)@.month == previous_index(old(self)@.month),
            key == EditKey::PageUp ==> final(self)@.month == Some(0usize),
            key == EditKey::PageDown ==> final(self)@.month == last_index(
                old(self)@.report@.months.len() as usize,
            ),
            key == EditKey::Right ==> final(self)@.category == Some(
                next_index(
                    old(self)@.category,
                    month_keys(old(self)@.report, old(self)@.month).len() as usize,
                ),
            ),
            key == EditKey::Left ==> final(self)@.category == previous_index(old(self)@.category),
            key == EditKey::Home ==> final(self)@.category == Some(0usize),
            key == EditKey::End ==> final(self)@.category == last_index(
                month_keys(old(self)@.report, old(self)@.month).len() as usize,
            ),
    {
        let number_of_months = self.report.rows_len();
        let keys = self.categories_of(self.month_selected);
        let number_of_categories = keys.len();
        proof {
            assert(key_views(keys@).len() == keys@.len());
        }
        match key {
            EditKey::Down => {
                self.month_selected = next_row(self.month_selected, number_of_months);
                self.set_category_index();
            },
            EditKey::Up => {
                self.month_selected = previous_row(self.month_selected);
                self.set_category_index();
            },
            EditKey::PageUp => {
                self.month_selected = Some(0);
                self.set_category_index();
            },
            EditKey::PageDown => {
                self.month_selected = last_row(number_of_months);
                self.set_category_index();
            },
            EditKey::Right => {
                self.category_selected = next_row(self.category_selected, number_of_categories);
                self.set_selected_category();
            },
            EditKey::Left => {
                self.category_selected = previous_row(self.category_selected);
                self.set_selected_category();
            },
            EditKey::Home => {
                self.category_selected = Some(0);
                self.set_selected_category();
            },
            EditKey::End => {
                self.category_selected = last_row(number_of_categories);
                self.set_selected_category();
            },
            _ => {
                return None;
            },
        }
        Some(())
    }

    /// The shown key and the selected month, for filtering the records.
    pub fn get_report_filter(&self) -> (r: (DirectionAndCategory, Option<MonthInYear>))
        requires
            self@.report.wf(),
        ensures
            key_view(r.0) == self@.selected_category,
            r.1 == match self@.month {
                Some(i) => if i < self@.report@.months.len() {
                    Some(self@.report@.months[i as int])
                } else {
                    None
                },
                None => None,
            },
    {
        let month = match self.month_selected {
            Some(i) => match self.report.get_month_at_index(i) {
                Some(m) => Some(*m),
                None => None,
            },
            None => None,
        };
        (copy_key(&self.selected_category), month)
    }
}

} // verus!

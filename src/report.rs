//! The month-by-category summary of a ledger snapshot, in the reporting
//! currency.

use itertools::Itertools;
use vstd::prelude::*;
use vstd::string::*;

use crate::amount::{cents_text, push_cents};
use crate::text::{padded_int, push_padded_int};
use crate::transaction::Transaction;

verus! {

broadcast use vstd::seq_lib::group_to_multiset_ensures;

/// A month as (year, month).
pub type MonthInYear = (i32, u8);

/// A report row key: (direction, category). A key with no category sums
/// every category of its direction.
pub type DirectionAndCategory = (Option<String>, Option<String>);

/// A report row key as text values.
pub type KeyView = (Option<Seq<char>>, Option<Seq<char>>);

/// The one currency the report sums.
pub const DEFAULT_CURRENCY: &'static str = "ILS";

pub open spec fn opt_text(o: Option<String>) -> Option<Seq<char>> {
    match o {
        Some(s) => Some(s@),
        None => None,
    }
}

pub open spec fn key_view(k: DirectionAndCategory) -> KeyView {
    (opt_text(k.0), opt_text(k.1))
}

pub open spec fn key_views(s: Seq<DirectionAndCategory>) -> Seq<KeyView> {
    s.map_values(|k: DirectionAndCategory| key_view(k))
}

/// Whether a record counts in the report: it is in the reporting currency.
pub open spec fn in_report(t: Transaction) -> bool {
    t.currency@ == DEFAULT_CURRENCY@
}

pub open spec fn month_of(t: Transaction) -> MonthInYear {
    (t.date.year, t.date.month)
}

/// Whether a record falls under a key: same direction, and same category
/// unless the key sums the whole direction.
pub open spec fn key_matches(t: Transaction, k: KeyView) -> bool {
    &&& k.0 == Some(t.direction@)
    &&& (k.1 is None || k.1 == Some(t.category@))
}

/// Whether a record counts toward the cell (`k`, `m`).
pub open spec fn counts_toward(t: Transaction, k: KeyView, m: MonthInYear) -> bool {
    in_report(t) && month_of(t) == m && key_matches(t, k)
}

/// The sum of the amounts of the records that count toward (`k`, `m`).
pub open spec fn total(rs: Seq<Transaction>, k: KeyView, m: MonthInYear) -> int
    decreases rs.len(),
{
    if rs.len() == 0 {
        0
    } else {
        total(rs.drop_last(), k, m) + if counts_toward(rs.last(), k, m) {
            rs.last().amount as int
        } else {
            0
        }
    }
}

/// Whether some record among the first `end` counts toward (`k`, `m`).
pub open spec fn cell_seen(rs: Seq<Transaction>, end: int, k: KeyView, m: MonthInYear) -> bool {
    exists|j: int| 0 <= j < end && #[trigger] counts_toward(rs[j], k, m)
}

/// Whether some record among the first `end` is reported in month `m`.
pub open spec fn month_seen(rs: Seq<Transaction>, end: int, m: MonthInYear) -> bool {
    exists|j: int| 0 <= j < end && in_report(rs[j]) && #[trigger] month_of(rs[j]) == m
}

/// Whether some record among the first `end` is reported under key `k`.
pub open spec fn key_seen(rs: Seq<Transaction>, end: int, k: KeyView) -> bool {
    exists|j: int| 0 <= j < end && in_report(rs[j]) && #[trigger] key_matches(rs[j], k)
}

/// A summary cell: the total where some record counts toward it.
pub open spec fn cell_value(rs: Seq<Transaction>, k: KeyView, m: MonthInYear) -> Option<int> {
    if cell_seen(rs, rs.len() as int, k, m) {
        Some(total(rs, k, m))
    } else {
        None
    }
}

/// Chronological order of months.
pub open spec fn month_lt(a: MonthInYear, b: MonthInYear) -> bool {
    a.0 < b.0 || (a.0 == b.0 && a.1 < b.1)
}

/// Lexicographic order of texts by character code, which for UTF-8 is the
/// byte order that `String` compares by.
pub open spec fn text_lt(a: Seq<char>, b: Seq<char>) -> bool
    decreases a.len(),
{
    if a.len() == 0 {
        b.len() > 0
    } else if b.len() == 0 {
        false
    } else if a[0] != b[0] {
        a[0] < b[0]
    } else {
        text_lt(a.drop_first(), b.drop_first())
    }
}

/// `Option`'s order: nothing first.
pub open spec fn opt_text_lt(a: Option<Seq<char>>, b: Option<Seq<char>>) -> bool {
    match (a, b) {
        (None, Some(_)) => true,
        (Some(x), Some(y)) => text_lt(x, y),
        _ => false,
    }
}

/// The order of keys: by direction, then by category.
pub open spec fn key_lt(a: KeyView, b: KeyView) -> bool {
    opt_text_lt(a.0, b.0) || (a.0 == b.0 && opt_text_lt(a.1, b.1))
}

pub proof fn lemma_text_lt_total(a: Seq<char>, b: Seq<char>)
    requires
        a != b,
    ensures
        text_lt(a, b) || text_lt(b, a),
    decreases a.len(),
{
    if a.len() > 0 && b.len() > 0 && a[0] == b[0] {
        if a.drop_first() == b.drop_first() {
            assert(a =~= seq![a[0]] + a.drop_first());
            assert(b =~= seq![b[0]] + b.drop_first());
        }
        lemma_text_lt_total(a.drop_first(), b.drop_first());
    } else if a.len() == 0 && b.len() == 0 {
        assert(a =~= b);
    }
}

pub proof fn lemma_key_lt_total(a: KeyView, b: KeyView)
    requires
        a != b,
    ensures
        key_lt(a, b) || key_lt(b, a),
{
    if a.0 != b.0 {
        if a.0 is Some && b.0 is Some {
            lemma_text_lt_total(a.0->0, b.0->0);
        }
    } else if a.1 is Some && b.1 is Some {
        lemma_text_lt_total(a.1->0, b.1->0);
    }
}

/// Relies on `itertools::Itertools::sorted`: the same items, in ascending
/// order of `(i32, u8)` (std's tuple order: by year, then by month).
#[verifier::external_body]
fn sorted_months(v: Vec<MonthInYear>) -> (r: Vec<MonthInYear>)
    ensures
        r@.to_multiset() == v@.to_multiset(),
        forall|i: int, j: int| 0 <= i < j < r@.len() ==> !month_lt(#[trigger] r@[j], #[trigger] r@[i]),
{
    v.into_iter().sorted().collect()
}

/// Relies on `itertools::Itertools::sorted`: the same items, in ascending
/// order of `(Option<String>, Option<String>)` (std's orders: tuples by
/// their first element then their second, `None` before `Some`, strings by
/// their bytes).
#[verifier::external_body]
fn sorted_keys(v: Vec<DirectionAndCategory>) -> (r: Vec<DirectionAndCategory>)
    ensures
        r@.to_multiset() == v@.to_multiset(),
        forall|i: int, j: int|
            0 <= i < j < r@.len() ==> !key_lt(key_view(#[trigger] r@[j]), key_view(#[trigger] r@[i])),
{
    v.into_iter().sorted().collect()
}

/// Whether two optional texts are equal.
fn same_opt_text(a: &Option<String>, b: &Option<String>) -> (r: bool)
    ensures
        r == (opt_text(*a) == opt_text(*b)),
{
    match a {
        Some(x) => match b {
            Some(y) => *x == *y,
            None => false,
        },
        None => b.is_none(),
    }
}

/// Whether two keys are equal as text.
pub(crate) fn same_key(a: &DirectionAndCategory, b: &DirectionAndCategory) -> (r: bool)
    ensures
        r == (key_view(*a) == key_view(*b)),
{
    same_opt_text(&a.0, &b.0) && same_opt_text(&a.1, &b.1)
}

fn copy_opt_text(a: &Option<String>) -> (r: Option<String>)
    ensures
        opt_text(r) == opt_text(*a),
{
    match a {
        Some(s) => Some(s.clone()),
        None => None,
    }
}

pub(crate) fn copy_key(k: &DirectionAndCategory) -> (r: DirectionAndCategory)
    ensures
        key_view(r) == key_view(*k),
{
    (copy_opt_text(&k.0), copy_opt_text(&k.1))
}

/// Whether `t` falls under key `k`.
fn matches_key(t: &Transaction, k: &DirectionAndCategory) -> (r: bool)
    ensures
        r == key_matches(*t, key_view(*k)),
{
    match &k.0 {
        Some(d) => {
            if !(*d == t.direction) {
                false
            } else {
                match &k.1 {
                    Some(c) => *c == t.category,
                    None => true,
                }
            }
        },
        None => false,
    }
}

/// Whether `t` is in the reporting currency.
fn is_reported(t: &Transaction) -> (r: bool)
    ensures
        r == in_report(*t),
{
    t.currency == String::from_str(DEFAULT_CURRENCY)
}

/// Adds `m` to `months` unless it is there already.
fn add_month(months: &mut Vec<MonthInYear>, m: MonthInYear)
    requires
        old(months)@.no_duplicates(),
    ensures
        final(months)@.no_duplicates(),
        forall|x: MonthInYear| final(months)@.contains(x) <==> (old(months)@.contains(x) || x == m),
{
    let mut i: usize = 0;
    while i < months.len()
        invariant
            i <= months@.len(),
            months@ == old(months)@,
            months@.no_duplicates(),
            forall|j: int| 0 <= j < i ==> months@[j] != m,
        decreases months@.len() - i,
    {
        if months[i].0 == m.0 && months[i].1 == m.1 {
            return;
        }
        i = i + 1;
    }
    months.push(m);
    proof {
        assert forall|x: MonthInYear| months@.contains(x) <==> (old(months)@.contains(x) || x == m) by {
            if x == m {
                assert(months@[months@.len() - 1] == m);
            }
            if old(months)@.contains(x) {
                let j = choose|j: int| 0 <= j < old(months)@.len() && old(months)@[j] == x;
                assert(months@[j] == x);
            }
        }
    }
}

/// Adds `k` to `keys` unless a key with the same text is there already.
fn add_key(keys: &mut Vec<DirectionAndCategory>, k: DirectionAndCategory)
    requires
        key_views(old(keys)@).no_duplicates(),
    ensures
        key_views(final(keys)@).no_duplicates(),
        forall|x: KeyView|
            key_views(final(keys)@).contains(x) <==> (key_views(old(keys)@).contains(x) || x
                == key_view(k)),
{
    let mut i: usize = 0;
    while i < keys.len()
        invariant
            i <= keys@.len(),
            keys@ == old(keys)@,
            key_views(keys@).no_duplicates(),
            forall|j: int| 0 <= j < i ==> key_view(#[trigger] keys@[j]) != key_view(k),
        decreases keys@.len() - i,
    {
        if same_key(&keys[i], &k) {
            proof {
                assert(key_views(keys@)[i as int] == key_view(k));
                assert forall|x: KeyView|
                    key_views(keys@).contains(x) <==> (key_views(old(keys)@).contains(x) || x
                        == key_view(k)) by {
                    if x == key_view(k) {
                        assert(key_views(keys@)[i as int] == x);
                    }
                }
            }
            return;
        }
        i = i + 1;
    }
    let ghost before = keys@;
    keys.push(k);
    proof {
        lemma_key_views_push(before, k);
    }
}

proof fn lemma_key_views_push(s: Seq<DirectionAndCategory>, k: DirectionAndCategory)
    requires
        key_views(s).no_duplicates(),
        !key_views(s).contains(key_view(k)),
    ensures
        key_views(s.push(k)) == key_views(s).push(key_view(k)),
        key_views(s.push(k)).no_duplicates(),
        forall|x: KeyView|
            key_views(s.push(k)).contains(x) <==> (key_views(s).contains(x) || x == key_view(k)),
{
    let t = key_views(s.push(k));
    assert(t =~= key_views(s).push(key_view(k)));
    assert forall|x: KeyView| t.contains(x) <==> (key_views(s).contains(x) || x == key_view(k)) by {
        if x == key_view(k) {
            assert(t[s.len() as int] == x);
        }
        if key_views(s).contains(x) {
            let j = choose|j: int| 0 <= j < key_views(s).len() && key_views(s)[j] == x;
            assert(t[j] == x);
        }
    }
    assert forall|a: int, b: int| 0 <= a < t.len() && 0 <= b < t.len() && a != b implies t[a] != t[b] by {
        if a == s.len() {
            assert(key_views(s)[b] == t[b]);
        } else if b == s.len() {
            assert(key_views(s)[a] == t[a]);
        }
    }
}

/// The cell (`k`, `m`) of the summary of `records`.
fn summary_cell(records: &Vec<Transaction>, k: &DirectionAndCategory, m: MonthInYear) -> (r: Option<
    i128,
>)
    ensures
        r is Some <==> cell_value(records@, key_view(*k), m) is Some,
        r is Some ==> r->0 as int == cell_value(records@, key_view(*k), m)->0,
{
    let ghost rs = records@;
    let ghost kv = key_view(*k);
    let mut acc: i128 = 0;
    let mut seen = false;
    let mut i: usize = 0;
    while i < records.len()
        invariant
            i <= rs.len(),
            rs == records@,
            kv == key_view(*k),
            acc as int == total(rs.subrange(0, i as int), kv, m),
            -(i as int) * 9223372036854775808 <= acc as int <= (i as int) * 9223372036854775808,
            seen == cell_seen(rs, i as int, kv, m),
        decreases rs.len() - i,
    {
        let t = &records[i];
        let counts = is_reported(t) && t.date.year == m.0 && t.date.month == m.1 && matches_key(t, k);
        proof {
            assert(rs.subrange(0, i + 1).drop_last() =~= rs.subrange(0, i as int));
            assert(rs.subrange(0, i + 1).last() == rs[i as int]);
            let ii = i as int;
            assert(ii + 1 <= 18446744073709551616);
            assert((ii + 1) * 9223372036854775808 <= 170141183460469231731687303715884105728)
                by (nonlinear_arith)
                requires
                    ii + 1 <= 18446744073709551616,
            ;
            assert(ii * 9223372036854775808 + 9223372036854775808 == (ii + 1)
                * 9223372036854775808) by (nonlinear_arith);
            if counts {
                assert(counts_toward(rs[ii], kv, m));
            }
            if cell_seen(rs, ii + 1, kv, m) && !counts {
                let j = choose|j: int| 0 <= j < ii + 1 && #[trigger] counts_toward(rs[j], kv, m);
                assert(j < ii);
            }
        }
        if counts {
            acc = acc + t.amount as i128;
            seen = true;
        }
        i = i + 1;
    }
    proof {
        assert(rs.subrange(0, rs.len() as int) =~= rs);
    }
    if seen {
        Some(acc)
    } else {
        None
    }
}

/// A cell that no record counts toward sums to zero.
pub proof fn lemma_total_unseen(rs: Seq<Transaction>, k: KeyView, m: MonthInYear)
    requires
        !cell_seen(rs, rs.len() as int, k, m),
    ensures
        total(rs, k, m) == 0,
    decreases rs.len(),
{
    if rs.len() > 0 {
        let p = rs.drop_last();
        assert(!counts_toward(rs[rs.len() - 1], k, m));
        assert(!cell_seen(p, p.len() as int, k, m)) by {
            if cell_seen(p, p.len() as int, k, m) {
                let j = choose|j: int| 0 <= j < p.len() && #[trigger] counts_toward(p[j], k, m);
                assert(counts_toward(rs[j], k, m));
            }
        }
        lemma_total_unseen(p, k, m);
    }
}

/// The text of a month: `YYYY.MM`.
pub open spec fn month_text(m: MonthInYear) -> Seq<char> {
    padded_int(m.0 as int, 4) + seq!['.'] + padded_int(m.1 as int, 2)
}

/// The text of a key: `direction - category`, with `*` for a missing part.
pub open spec fn key_text(k: KeyView) -> Seq<char> {
    (match k.0 {
        Some(d) => d,
        None => seq!['*'],
    }) + " - "@ + (match k.1 {
        Some(c) => c,
        None => seq!['*'],
    })
}

/// The keys whose total in month `m` is not zero, in report order.
pub open spec fn nonzero_keys(v: ReportView, m: MonthInYear) -> Seq<KeyView> {
    v.categories.filter(|k: KeyView| total(v.source, k, m) != 0)
}

/// The keys that some record counts toward in month `m`, in report order.
pub open spec fn keys_with_cells(v: ReportView, m: MonthInYear) -> Seq<KeyView> {
    v.categories.filter(|k: KeyView| cell_seen(v.source, v.source.len() as int, k, m))
}

fn month_label(m: MonthInYear) -> (r: String)
    ensures
        r@ == month_text(m),
{
    proof {
        reveal_strlit(".");
    }
    let mut out = String::new();
    push_padded_int(&mut out, m.0 as i64, 4);
    out.append(".");
    push_padded_int(&mut out, m.1 as i64, 2);
    proof {
        assert(out@ =~= month_text(m));
    }
    out
}

fn key_label(k: &DirectionAndCategory) -> (r: String)
    ensures
        r@ == key_text(key_view(*k)),
{
    proof {
        reveal_strlit("*");
    }
    let mut out = String::new();
    match &k.0 {
        Some(d) => out.append(d.as_str()),
        None => out.append("*"),
    }
    out.append(" - ");
    match &k.1 {
        Some(c) => out.append(c.as_str()),
        None => out.append("*"),
    }
    proof {
        assert(out@ =~= key_text(key_view(*k)));
    }
    out
}

/// Whether `k` names one category of direction `d`.
pub open spec fn under_direction(k: KeyView, d: Seq<char>) -> bool {
    k.0 == Some(d) && k.1 is Some
}

/// The sum of the totals in month `m` of those keys of `ks` that name one
/// category of direction `d`.
pub open spec fn direction_sum(rs: Seq<Transaction>, ks: Seq<KeyView>, d: Seq<char>, m: MonthInYear) -> int
    decreases ks.len(),
{
    if ks.len() == 0 {
        0
    } else {
        direction_sum(rs, ks.drop_last(), d, m) + if under_direction(ks.last(), d) {
            total(rs, ks.last(), m)
        } else {
            0
        }
    }
}

/// How many keys of `ks` that name one category of direction `d` the
/// record `t` counts toward in month `m`.
pub open spec fn direction_hits(ks: Seq<KeyView>, d: Seq<char>, t: Transaction, m: MonthInYear) -> int
    decreases ks.len(),
{
    if ks.len() == 0 {
        0
    } else {
        direction_hits(ks.drop_last(), d, t, m) + if under_direction(ks.last(), d) && counts_toward(
            t,
            ks.last(),
            m,
        ) {
            1int
        } else {
            0
        }
    }
}

proof fn lemma_total_push(rs: Seq<Transaction>, t: Transaction, k: KeyView, m: MonthInYear)
    ensures
        total(rs.push(t), k, m) == total(rs, k, m) + if counts_toward(t, k, m) {
            t.amount as int
        } else {
            0
        },
{
    assert(rs.push(t).drop_last() =~= rs);
}

proof fn lemma_direction_sum_push(
    rs: Seq<Transaction>,
    t: Transaction,
    ks: Seq<KeyView>,
    d: Seq<char>,
    m: MonthInYear,
)
    ensures
        direction_sum(rs.push(t), ks, d, m) == direction_sum(rs, ks, d, m) + direction_hits(
            ks,
            d,
            t,
            m,
        ) * t.amount,
    decreases ks.len(),
{
    if ks.len() > 0 {
        lemma_direction_sum_push(rs, t, ks.drop_last(), d, m);
        lemma_total_push(rs, t, ks.last(), m);
        let h = direction_hits(ks.drop_last(), d, t, m);
        let a = t.amount as int;
        assert((h + 1) * a == h * a + a) by (nonlinear_arith);
    }
}

proof fn lemma_direction_sum_empty(ks: Seq<KeyView>, d: Seq<char>, m: MonthInYear)
    ensures
        direction_sum(Seq::<Transaction>::empty(), ks, d, m) == 0,
    decreases ks.len(),
{
    if ks.len() > 0 {
        lemma_direction_sum_empty(ks.drop_last(), d, m);
    }
}

proof fn lemma_direction_hits(ks: Seq<KeyView>, d: Seq<char>, t: Transaction, m: MonthInYear)
    requires
        ks.no_duplicates(),
    ensures
        direction_hits(ks, d, t, m) == if counts_toward(t, (Some(d), None), m) && ks.contains(
            (Some(d), Some(t.category@)),
        ) {
            1int
        } else {
            0
        },
    decreases ks.len(),
{
    let k0: KeyView = (Some(d), Some(t.category@));
    if ks.len() > 0 {
        let p = ks.drop_last();
        assert(p.no_duplicates()) by {
            assert forall|a: int, b: int| 0 <= a < p.len() && 0 <= b < p.len() && a != b implies p[a]
                != p[b] by {
                assert(p[a] == ks[a] && p[b] == ks[b]);
            }
        }
        lemma_direction_hits(p, d, t, m);
        let last = ks.last();
        assert(under_direction(last, d) && counts_toward(t, last, m) <==> (last == k0
            && counts_toward(t, (Some(d), None), m)));
        if ks.contains(k0) && last != k0 {
            let j = choose|j: int| 0 <= j < ks.len() && ks[j] == k0;
            assert(p[j] == k0);
        }
        if last == k0 && p.contains(k0) {
            let j = choose|j: int| 0 <= j < p.len() && p[j] == k0;
            assert(ks[j] == ks[ks.len() - 1]);
        }
        if p.contains(k0) {
            let j = choose|j: int| 0 <= j < p.len() && p[j] == k0;
            assert(ks[j] == k0);
        }
        if last == k0 {
            assert(ks[ks.len() - 1] == k0);
        }
    }
}

pub proof fn lemma_text_lt_irreflexive(a: Seq<char>)
    ensures
        !text_lt(a, a),
    decreases a.len(),
{
    if a.len() > 0 {
        lemma_text_lt_irreflexive(a.drop_first());
    }
}

proof fn lemma_rollup_prefix(src: Seq<Transaction>, ks: Seq<KeyView>, d: Seq<char>, m: MonthInYear, j: int)
    requires
        0 <= j <= src.len(),
        ks.no_duplicates(),
        forall|k: KeyView| ks.contains(k) <==> key_seen(src, src.len() as int, k),
    ensures
        total(src.subrange(0, j), (Some(d), None), m) == direction_sum(src.subrange(0, j), ks, d, m),
    decreases j,
{
    if j == 0 {
        assert(src.subrange(0, 0) =~= Seq::<Transaction>::empty());
        lemma_direction_sum_empty(ks, d, m);
    } else {
        let p = src.subrange(0, j - 1);
        let t = src[j - 1];
        assert(src.subrange(0, j) =~= p.push(t));
        lemma_rollup_prefix(src, ks, d, m, j - 1);
        lemma_total_push(p, t, (Some(d), None), m);
        lemma_direction_sum_push(p, t, ks, d, m);
        lemma_direction_hits(ks, d, t, m);
        let k0: KeyView = (Some(d), Some(t.category@));
        if counts_toward(t, (Some(d), None), m) {
            assert(key_matches(src[j - 1], k0));
            assert(key_seen(src, src.len() as int, k0));
        }
    }
}

/// The sum under a direction as a whole (its key without a category) in a
/// month is the sum, over the report's keys of that direction's single
/// categories, of their sums in that month.
pub proof fn lemma_rollup_is_sum_of_categories(r: TransactionsReport, d: Seq<char>, m: MonthInYear)
    requires
        r.wf(),
    ensures
        total(r@.source, (Some(d), None), m) == direction_sum(r@.source, r@.categories, d, m),
{
    let v = r@;
    assert(v.categories.no_duplicates()) by {
        assert forall|a: int, b: int|
            0 <= a < v.categories.len() && 0 <= b < v.categories.len() && a != b implies v.categories[a]
            != v.categories[b] by {
            let x = v.categories[a];
            if x == v.categories[b] {
                if a < b {
                    assert(key_lt(v.categories[a], v.categories[b]));
                } else {
                    assert(key_lt(v.categories[b], v.categories[a]));
                }
                if x.0 is Some {
                    lemma_text_lt_irreflexive(x.0->0);
                }
                if x.1 is Some {
                    lemma_text_lt_irreflexive(x.1->0);
                }
            }
        }
    }
    lemma_rollup_prefix(v.source, v.categories, d, m, v.source.len() as int);
    assert(v.source.subrange(0, v.source.len() as int) =~= v.source);
}

/// A record in another currency than the reporting one counts toward no
/// month, no key and no cell: adding it to the records changes none of
/// them.
pub proof fn lemma_other_currency_ignored(
    rs: Seq<Transaction>,
    t: Transaction,
    k: KeyView,
    m: MonthInYear,
)
    requires
        !in_report(t),
    ensures
        total(rs.push(t), k, m) == total(rs, k, m),
        cell_value(rs.push(t), k, m) == cell_value(rs, k, m),
        month_seen(rs.push(t), rs.len() + 1int, m) == month_seen(rs, rs.len() as int, m),
        key_seen(rs.push(t), rs.len() + 1int, k) == key_seen(rs, rs.len() as int, k),
{
    let s = rs.push(t);
    let n = rs.len() as int;
    lemma_total_push(rs, t, k, m);
    if cell_seen(s, n + 1, k, m) {
        let j = choose|j: int| 0 <= j < n + 1 && #[trigger] counts_toward(s[j], k, m);
        assert(j < n && s[j] == rs[j]);
        assert(cell_seen(rs, n, k, m));
    }
    if cell_seen(rs, n, k, m) {
        let j = choose|j: int| 0 <= j < n && #[trigger] counts_toward(rs[j], k, m);
        assert(s[j] == rs[j]);
        assert(cell_seen(s, n + 1, k, m));
    }
    if month_seen(s, n + 1, m) {
        let j = choose|j: int| 0 <= j < n + 1 && in_report(s[j]) && #[trigger] month_of(s[j]) == m;
        assert(j < n && s[j] == rs[j]);
        assert(month_seen(rs, n, m));
    }
    if month_seen(rs, n, m) {
        let j = choose|j: int| 0 <= j < n && in_report(rs[j]) && #[trigger] month_of(rs[j]) == m;
        assert(s[j] == rs[j]);
        assert(month_seen(s, n + 1, m));
    }
    if key_seen(s, n + 1, k) {
        let j = choose|j: int| 0 <= j < n + 1 && in_report(s[j]) && #[trigger] key_matches(s[j], k);
        assert(j < n && s[j] == rs[j]);
        assert(key_seen(rs, n, k));
    }
    if key_seen(rs, n, k) {
        let j = choose|j: int| 0 <= j < n && in_report(rs[j]) && #[trigger] key_matches(rs[j], k);
        assert(s[j] == rs[j]);
        assert(key_seen(s, n + 1, k));
    }
}

/// A report of records plus one in another currency has the same months,
/// the same keys and the same sums as the report of the records alone.
pub proof fn lemma_report_ignores_other_currency(
    a: TransactionsReport,
    b: TransactionsReport,
    t: Transaction,
)
    requires
        a.wf(),
        b.wf(),
        b@.source == a@.source.push(t),
        !in_report(t),
    ensures
        forall|m: MonthInYear| a@.months.contains(m) <==> b@.months.contains(m),
        forall|k: KeyView| a@.categories.contains(k) <==> b@.categories.contains(k),
        forall|k: KeyView, m: MonthInYear|
            #[trigger] total(b@.source, k, m) == total(a@.source, k, m),
{
    assert forall|m: MonthInYear| a@.months.contains(m) <==> b@.months.contains(m) by {
        lemma_other_currency_ignored(a@.source, t, (None, None), m);
    }
    assert forall|k: KeyView| a@.categories.contains(k) <==> b@.categories.contains(k) by {
        lemma_other_currency_ignored(a@.source, t, k, (0, 0));
    }
    assert forall|k: KeyView, m: MonthInYear| #[trigger] total(b@.source, k, m) == total(a@.source, k, m) by {
        lemma_other_currency_ignored(a@.source, t, k, m);
    }
}

proof fn lemma_permutation<A>(v: Seq<A>, r: Seq<A>)
    requires
        r.to_multiset() == v.to_multiset(),
    ensures
        forall|x: A| r.contains(x) <==> v.contains(x),
        v.no_duplicates() ==> r.no_duplicates(),
{
    assert forall|x: A| r.contains(x) <==> v.contains(x) by {
        assert(r.contains(x) <==> r.to_multiset().count(x) > 0);
        assert(v.contains(x) <==> v.to_multiset().count(x) > 0);
    }
    if v.no_duplicates() {
        v.lemma_multiset_has_no_duplicates();
        r.lemma_multiset_has_no_duplicates_conv();
    }
}

proof fn lemma_permuted_keys(v: Seq<DirectionAndCategory>, r: Seq<DirectionAndCategory>)
    requires
        r.to_multiset() == v.to_multiset(),
        key_views(v).no_duplicates(),
    ensures
        forall|k: KeyView| key_views(r).contains(k) <==> key_views(v).contains(k),
        key_views(r).no_duplicates(),
{
    assert(v.no_duplicates()) by {
        assert forall|i: int, j: int| 0 <= i < v.len() && 0 <= j < v.len() && i != j implies v[i]
            != v[j] by {
            assert(key_views(v)[i] != key_views(v)[j]);
        }
    }
    lemma_permutation(v, r);
    assert forall|k: KeyView| key_views(r).contains(k) <==> key_views(v).contains(k) by {
        if key_views(r).contains(k) {
            let a = choose|a: int| 0 <= a < key_views(r).len() && key_views(r)[a] == k;
            assert(r.contains(r[a]));
            let ia = choose|ia: int| 0 <= ia < v.len() && v[ia] == r[a];
            assert(key_views(v)[ia] == k);
        }
        if key_views(v).contains(k) {
            let a = choose|a: int| 0 <= a < key_views(v).len() && key_views(v)[a] == k;
            assert(v.contains(v[a]));
            let ia = choose|ia: int| 0 <= ia < r.len() && r[ia] == v[a];
            assert(key_views(r)[ia] == k);
        }
    }
    assert forall|a: int, b: int|
        0 <= a < r.len() && 0 <= b < r.len() && a != b implies key_views(r)[a] != key_views(
        r,
    )[b] by {
        if key_views(r)[a] == key_views(r)[b] {
            assert(r.contains(r[a]) && r.contains(r[b]));
            let ia = choose|ia: int| 0 <= ia < v.len() && v[ia] == r[a];
            let ib = choose|ib: int| 0 <= ib < v.len() && v[ib] == r[b];
            assert(key_views(v)[ia] == key_views(v)[ib]);
        }
    }
}

/// What a report holds: its months, its keys, the summary cells by key and
/// month, and the records it was built from.
pub struct ReportView {
    pub months: Seq<MonthInYear>,
    pub categories: Seq<KeyView>,
    pub cells: Seq<Seq<Option<i128>>>,
    pub source: Seq<Transaction>,
}

/// A month-by-category summary of a snapshot of records. Only records in
/// [`DEFAULT_CURRENCY`] count.
pub struct TransactionsReport {
    pub months: Vec<MonthInYear>,
    categories: Vec<DirectionAndCategory>,
    category_summary: Vec<Vec<Option<i128>>>,
    source: Ghost<Seq<Transaction>>,
}

impl View for TransactionsReport {
    type V = ReportView;

    closed spec fn view(&self) -> ReportView {
        ReportView {
            months: self.months@,
            categories: key_views(self.categories@),
            cells: self.category_summary@.map_values(|row: Vec<Option<i128>>| row@),
            source: self.source@,
        }
    }
}

impl TransactionsReport {
    /// The report's invariant: the months of its records, most recent
    /// first; the keys of its records, in ascending order; and for each key
    /// and month the cell of the summary.
    pub open spec fn wf(&self) -> bool {
        let v = self@;
        let n = v.source.len() as int;
        &&& forall|i: int, j: int|
            0 <= i < j < v.months.len() ==> month_lt(#[trigger] v.months[j], #[trigger] v.months[i])
        &&& forall|m: MonthInYear| v.months.contains(m) <==> month_seen(v.source, n, m)
        &&& forall|i: int, j: int|
            0 <= i < j < v.categories.len() ==> key_lt(
                #[trigger] v.categories[i],
                #[trigger] v.categories[j],
            )
        &&& forall|k: KeyView| v.categories.contains(k) <==> key_seen(v.source, n, k)
        &&& v.cells.len() == v.categories.len()
        &&& forall|c: int| 0 <= c < v.cells.len() ==> (#[trigger] v.cells[c]).len() == v.months.len()
        &&& forall|c: int, m: int|
            0 <= c < v.cells.len() && 0 <= m < v.months.len() ==> match #[trigger] v.cells[c][m] {
                Some(x) => cell_value(v.source, v.categories[c], v.months[m]) == Some(x as int),
                None => cell_value(v.source, v.categories[c], v.months[m]) is None,
            }
    }

    /// Builds the report of `transactions`.
    pub fn new(transactions: &Vec<Transaction>) -> (r: TransactionsReport)
        ensures
            r.wf(),
            r@.source == transactions@,
    {
        let ghost rs = transactions@;
        let n = transactions.len();
        let mut months: Vec<MonthInYear> = Vec::new();
        let mut keys: Vec<DirectionAndCategory> = Vec::new();
        let mut i: usize = 0;
        while i < n
            invariant
                i <= n == rs.len(),
                rs == transactions@,
                months@.no_duplicates(),
                forall|m: MonthInYear| months@.contains(m) <==> month_seen(rs, i as int, m),
                key_views(keys@).no_duplicates(),
                forall|k: KeyView| key_views(keys@).contains(k) <==> key_seen(rs, i as int, k),
            decreases n - i,
        {
            let t = &transactions[i];
            let ghost ii = i as int;
            if is_reported(t) {
                add_month(&mut months, (t.date.year, t.date.month));
                let whole: DirectionAndCategory = (Some(t.direction.clone()), Some(t.category.clone()));
                let rollup: DirectionAndCategory = (Some(t.direction.clone()), None);
                add_key(&mut keys, whole);
                add_key(&mut keys, rollup);
                proof {
                    assert forall|k: KeyView|
                        key_views(keys@).contains(k) <==> (key_seen(rs, ii, k) || key_matches(
                            rs[ii],
                            k,
                        )) by {
                        assert(key_matches(rs[ii], k) <==> (k == key_view(whole) || k == key_view(
                            rollup,
                        )));
                    }
                }
            }
            proof {
                assert forall|m: MonthInYear| months@.contains(m) <==> month_seen(rs, ii + 1, m) by {
                    if month_seen(rs, ii + 1, m) && !month_seen(rs, ii, m) {
                        let j = choose|j: int|
                            0 <= j < ii + 1 && in_report(rs[j]) && #[trigger] month_of(rs[j]) == m;
                        assert(j == ii);
                    }
                    if in_report(rs[ii]) && month_of(rs[ii]) == m {
                        assert(month_seen(rs, ii + 1, m));
                    }
                }
                assert forall|k: KeyView| key_views(keys@).contains(k) <==> key_seen(rs, ii + 1, k) by {
                    if key_seen(rs, ii + 1, k) && !key_seen(rs, ii, k) {
                        let j = choose|j: int|
                            0 <= j < ii + 1 && in_report(rs[j]) && #[trigger] key_matches(rs[j], k);
                        assert(j == ii);
                    }
                    if in_report(rs[ii]) && key_matches(rs[ii], k) {
                        assert(key_seen(rs, ii + 1, k));
                    }
                    if key_seen(rs, ii, k) {
                        let j = choose|j: int|
                            0 <= j < ii && in_report(rs[j]) && #[trigger] key_matches(rs[j], k);
                        assert(key_seen(rs, ii + 1, k));
                    }
                }
            }
            i = i + 1;
        }
        let ascending = sorted_months(months);
        proof {
            lemma_permutation(months@, ascending@);
        }
        let count = ascending.len();
        let mut descending: Vec<MonthInYear> = Vec::new();
        let mut j: usize = count;
        while j > 0
            invariant
                j <= count == ascending@.len(),
                descending@.len() == count - j,
                forall|k: int| 0 <= k < count - j ==> #[trigger] descending@[k] == ascending@[count - 1 - k],
            decreases j,
        {
            j = j - 1;
            descending.push(ascending[j]);
        }
        proof {
            assert forall|a: int, b: int| 0 <= a < b < descending@.len() implies month_lt(
                #[trigger] descending@[b],
                #[trigger] descending@[a],
            ) by {
                let x = ascending@[count - 1 - b];
                let y = ascending@[count - 1 - a];
                assert(!month_lt(y, x));
                assert(x != y);
            }
            assert forall|m: MonthInYear| descending@.contains(m) <==> ascending@.contains(m) by {
                if descending@.contains(m) {
                    let a = choose|a: int| 0 <= a < descending@.len() && descending@[a] == m;
                    assert(ascending@[count - 1 - a] == m);
                }
                if ascending@.contains(m) {
                    let a = choose|a: int| 0 <= a < ascending@.len() && ascending@[a] == m;
                    assert(descending@[count - 1 - a] == m);
                }
            }
        }
        let categories = sorted_keys(keys);
        proof {
            lemma_permuted_keys(keys@, categories@);
            assert forall|a: int, b: int| 0 <= a < b < categories@.len() implies key_lt(
                #[trigger] key_views(categories@)[a],
                #[trigger] key_views(categories@)[b],
            ) by {
                assert(key_views(categories@)[a] != key_views(categories@)[b]);
                lemma_key_lt_total(key_views(categories@)[a], key_views(categories@)[b]);
            }
        }
        let mut summary: Vec<Vec<Option<i128>>> = Vec::new();
        let mut c: usize = 0;
        while c < categories.len()
            invariant
                c <= categories@.len(),
                rs == transactions@,
                summary@.len() == c,
                forall|a: int| 0 <= a < c ==> (#[trigger] summary@[a])@.len() == descending@.len(),
                forall|a: int, b: int|
                    0 <= a < c && 0 <= b < descending@.len() ==> match #[trigger] summary@[a]@[b] {
                        Some(x) => cell_value(rs, key_view(categories@[a]), descending@[b]) == Some(
                            x as int,
                        ),
                        None => cell_value(rs, key_view(categories@[a]), descending@[b]) is None,
                    },
            decreases categories@.len() - c,
        {
            let mut row: Vec<Option<i128>> = Vec::new();
            let mut m: usize = 0;
            while m < descending.len()
                invariant
                    c < categories@.len(),
                    m <= descending@.len(),
                    rs == transactions@,
                    row@.len() == m,
                    forall|b: int|
                        0 <= b < m ==> match #[trigger] row@[b] {
                            Some(x) => cell_value(rs, key_view(categories@[c as int]), descending@[b])
                                == Some(x as int),
                            None => cell_value(rs, key_view(categories@[c as int]), descending@[b]) is None,
                        },
                decreases descending@.len() - m,
            {
                let cell = summary_cell(transactions, &categories[c], descending[m]);
                row.push(cell);
                m = m + 1;
            }
            summary.push(row);
            c = c + 1;
        }
        let r = TransactionsReport {
            months: descending,
            categories,
            category_summary: summary,
            source: Ghost(rs),
        };
        proof {
            let v = r@;
            assert forall|cc: int, mm: int|
                0 <= cc < v.cells.len() && 0 <= mm < v.months.len() implies match #[trigger] v.cells[cc][mm] {
                Some(x) => cell_value(v.source, v.categories[cc], v.months[mm]) == Some(x as int),
                None => cell_value(v.source, v.categories[cc], v.months[mm]) is None,
            } by {
                assert(v.cells[cc] == summary@[cc]@);
                assert(v.categories[cc] == key_view(categories@[cc]));
            }
        }
        r
    }

    /// The number of months in the report.
    pub fn rows_len(&self) -> (r: usize)
        ensures
            r == self@.months.len(),
    {
        self.months.len()
    }

    /// The position of `key` among the report's keys.
    fn key_index(&self, key: &DirectionAndCategory) -> (r: Option<usize>)
        ensures
            match r {
                Some(c) => c < self@.categories.len() && self@.categories[c as int] == key_view(*key),
                None => !self@.categories.contains(key_view(*key)),
            },
    {
        let mut c: usize = 0;
        while c < self.categories.len()
            invariant
                c <= self.categories@.len(),
                forall|j: int| 0 <= j < c ==> key_view(#[trigger] self.categories@[j]) != key_view(*key),
            decreases self.categories@.len() - c,
        {
            if same_key(&self.categories[c], key) {
                return Some(c);
            }
            c = c + 1;
        }
        None
    }

    /// The position of `month` among the report's months.
    fn month_index(&self, month: MonthInYear) -> (r: Option<usize>)
        ensures
            match r {
                Some(m) => m < self@.months.len() && self@.months[m as int] == month,
                None => !self@.months.contains(month),
            },
    {
        let mut m: usize = 0;
        while m < self.months.len()
            invariant
                m <= self.months@.len(),
                forall|j: int| 0 <= j < m ==> self.months@[j] != month,
            decreases self.months@.len() - m,
        {
            if self.months[m].0 == month.0 && self.months[m].1 == month.1 {
                return Some(m);
            }
            m = m + 1;
        }
        None
    }

    /// The summed amount of the records under `key` in `month`: zero where
    /// there are none.
    pub fn sum_for(&self, key: &DirectionAndCategory, month: MonthInYear) -> (r: i128)
        requires
            self.wf(),
        ensures
            r as int == total(self@.source, key_view(*key), month),
    {
        let ghost v = self@;
        let ghost n = v.source.len() as int;
        let ghost k = key_view(*key);
        match self.key_index(key) {
            Some(c) => match self.month_index(month) {
                Some(m) => {
                    proof {
                        assert(v.cells[c as int] == self.category_summary@[c as int]@);
                    }
                    match self.category_summary[c][m] {
                        Some(x) => x,
                        None => {
                            proof {
                                lemma_total_unseen(v.source, k, month);
                            }
                            0
                        },
                    }
                },
                None => {
                    proof {
                        assert(!cell_seen(v.source, n, k, month)) by {
                            if cell_seen(v.source, n, k, month) {
                                let j = choose|j: int|
                                    0 <= j < n && #[trigger] counts_toward(v.source[j], k, month);
                                assert(in_report(v.source[j]) && month_of(v.source[j]) == month);
                                assert(month_seen(v.source, n, month));
                            }
                        }
                        lemma_total_unseen(v.source, k, month);
                    }
                    0
                },
            },
            None => {
                proof {
                    assert(!cell_seen(v.source, n, k, month)) by {
                        if cell_seen(v.source, n, k, month) {
                            let j = choose|j: int|
                                0 <= j < n && #[trigger] counts_toward(v.source[j], k, month);
                            assert(in_report(v.source[j]) && key_matches(v.source[j], k));
                            assert(key_seen(v.source, n, k));
                        }
                    }
                    lemma_total_unseen(v.source, k, month);
                }
                0
            },
        }
    }

    /// For each month of the report, most recent first, its label and the
    /// summed amount under `direction_and_category`.
    pub fn get_month_rows(&self, direction_and_category: &DirectionAndCategory) -> (r: Vec<
        (String, i128),
    >)
        requires
            self.wf(),
        ensures
            r@.len() == self@.months.len(),
            forall|i: int|
                0 <= i < r@.len() ==> (#[trigger] r@[i]).0@ == month_text(self@.months[i])
                    && r@[i].1 as int == total(
                    self@.source,
                    key_view(*direction_and_category),
                    self@.months[i],
                ),
    {
        let mut rows: Vec<(String, i128)> = Vec::new();
        let mut i: usize = 0;
        while i < self.months.len()
            invariant
                self.wf(),
                i <= self.months@.len(),
                rows@.len() == i,
                forall|j: int|
                    0 <= j < i ==> (#[trigger] rows@[j]).0@ == month_text(self@.months[j])
                        && rows@[j].1 as int == total(
                        self@.source,
                        key_view(*direction_and_category),
                        self@.months[j],
                    ),
            decreases self.months@.len() - i,
        {
            let month = self.months[i];
            let label = month_label(month);
            let amount = self.sum_for(direction_and_category, month);
            rows.push((label, amount));
            i = i + 1;
        }
        rows
    }

    /// The month at `index`, most recent first.
    pub fn get_month_at_index(&self, index: usize) -> (r: Option<&MonthInYear>)
        ensures
            index < self@.months.len() ==> r == Some(&self@.months[index as int]),
            index >= self@.months.len() ==> r is None,
    {
        if index < self.months.len() {
            Some(&self.months[index])
        } else {
            None
        }
    }

    /// The keys whose summed amount in the month at `index` is not zero, in
    /// report order; none for an index past the months.
    pub fn get_categories_for_month_by_index(&self, index: usize) -> (r: Vec<DirectionAndCategory>)
        requires
            self.wf(),
        ensures
            index < self@.months.len() ==> key_views(r@) == nonzero_keys(
                self@,
                self@.months[index as int],
            ),
            index >= self@.months.len() ==> r@.len() == 0,
            forall|i: int|
                0 <= i < r@.len() ==> total(
                    self@.source,
                    #[trigger] key_views(r@)[i],
                    self@.months[index as int],
                ) != 0,
    {
        let mut out: Vec<DirectionAndCategory> = Vec::new();
        if index >= self.months.len() {
            return out;
        }
        let ghost v = self@;
        let ghost month = v.months[index as int];
        let ghost pred = |k: KeyView| total(v.source, k, month) != 0;
        let mut c: usize = 0;
        while c < self.categories.len()
            invariant
                self.wf(),
                v == self@,
                index < v.months.len(),
                month == v.months[index as int],
                pred == (|k: KeyView| total(v.source, k, month) != 0),
                c <= self.categories@.len(),
                key_views(out@) == v.categories.subrange(0, c as int).filter(pred),
            decreases self.categories@.len() - c,
        {
            proof {
                assert(v.categories.subrange(0, c + 1) =~= v.categories.subrange(0, c as int).push(
                    v.categories[c as int],
                ));
                v.categories.subrange(0, c as int).lemma_filter_push(v.categories[c as int], pred);
                assert(v.cells[c as int] == self.category_summary@[c as int]@);
            }
            let keep = match self.category_summary[c][index] {
                Some(x) => x != 0,
                None => {
                    proof {
                        lemma_total_unseen(v.source, v.categories[c as int], month);
                    }
                    false
                },
            };
            if keep {
                let ghost before = out@;
                out.push(copy_key(&self.categories[c]));
                proof {
                    assert(key_views(out@) =~= key_views(before).push(v.categories[c as int]));
                }
            }
            c = c + 1;
        }
        proof {
            assert(v.categories.subrange(0, v.categories.len() as int) =~= v.categories);
            assert forall|i: int| 0 <= i < out@.len() implies total(
                v.source,
                #[trigger] key_views(out@)[i],
                month,
            ) != 0 by {
                v.categories.lemma_filter_pred(pred, i);
            }
        }
        out
    }

    /// The key at `category_index` among those of
    /// [`Self::get_categories_for_month_by_index`]; `(None, None)` where
    /// there is none.
    pub fn get_category_by_index_for_month_at_index(
        &self,
        month_index: usize,
        category_index: usize,
    ) -> (r: DirectionAndCategory)
        requires
            self.wf(),
        ensures
            key_view(r) == (if month_index < self@.months.len() && category_index < nonzero_keys(
                self@,
                self@.months[month_index as int],
            ).len() {
                nonzero_keys(self@, self@.months[month_index as int])[category_index as int]
            } else {
                (None, None)
            }),
    {
        let categories = self.get_categories_for_month_by_index(month_index);
        if category_index < categories.len() {
            proof {
                assert(key_views(categories@)[category_index as int] == key_view(
                    categories@[category_index as int],
                ));
            }
            copy_key(&categories[category_index])
        } else {
            (None, None)
        }
    }

    /// For each key that some record counts toward in the month at
    /// `index`, in report order: its label and its summed amount in two
    /// decimals. None for an index past the months.
    pub fn get_category_rows_for_month_by_index(&self, index: usize) -> (r: Vec<Vec<String>>)
        requires
            self.wf(),
        ensures
            index >= self@.months.len() ==> r@.len() == 0,
            index < self@.months.len() ==> {
                let ks = keys_with_cells(self@, self@.months[index as int]);
                &&& r@.len() == ks.len()
                &&& forall|i: int|
                    0 <= i < r@.len() ==> (#[trigger] r@[i])@.len() == 2 && r@[i]@[0]@ == key_text(
                        ks[i],
                    ) && r@[i]@[1]@ == cents_text(
                        total(self@.source, ks[i], self@.months[index as int]),
                    )
            },
    {
        let mut out: Vec<Vec<String>> = Vec::new();
        if index >= self.months.len() {
            return out;
        }
        let ghost v = self@;
        let ghost month = v.months[index as int];
        let ghost pred = |k: KeyView| cell_seen(v.source, v.source.len() as int, k, month);
        let mut c: usize = 0;
        while c < self.categories.len()
            invariant
                self.wf(),
                v == self@,
                index < v.months.len(),
                month == v.months[index as int],
                pred == (|k: KeyView| cell_seen(v.source, v.source.len() as int, k, month)),
                c <= self.categories@.len(),
                out@.len() == v.categories.subrange(0, c as int).filter(pred).len(),
                forall|i: int|
                    0 <= i < out@.len() ==> (#[trigger] out@[i])@.len() == 2 && out@[i]@[0]@
                        == key_text(v.categories.subrange(0, c as int).filter(pred)[i])
                        && out@[i]@[1]@ == cents_text(
                        total(v.source, v.categories.subrange(0, c as int).filter(pred)[i], month),
                    ),
            decreases self.categories@.len() - c,
        {
            let ghost prefix = v.categories.subrange(0, c as int);
            proof {
                assert(v.categories.subrange(0, c + 1) =~= prefix.push(v.categories[c as int]));
                prefix.lemma_filter_push(v.categories[c as int], pred);
                assert(v.cells[c as int] == self.category_summary@[c as int]@);
                assert(v.categories[c as int] == key_view(self.categories@[c as int]));
            }
            match self.category_summary[c][index] {
                Some(x) => {
                    let mut row: Vec<String> = Vec::new();
                    row.push(key_label(&self.categories[c]));
                    let mut sum = String::new();
                    push_cents(&mut sum, x);
                    row.push(sum);
                    let ghost before = out@;
                    out.push(row);
                    proof {
                        let f = v.categories.subrange(0, c + 1).filter(pred);
                        assert(f == prefix.filter(pred).push(v.categories[c as int]));
                        assert forall|i: int| 0 <= i < out@.len() implies (#[trigger] out@[i])@.len()
                            == 2 && out@[i]@[0]@ == key_text(f[i]) && out@[i]@[1]@ == cents_text(
                            total(v.source, f[i], month),
                        ) by {
                            if i < before.len() {
                                assert(out@[i] == before[i]);
                                assert(f[i] == prefix.filter(pred)[i]);
                            }
                        }
                    }
                },
                None => {},
            }
            c = c + 1;
        }
        proof {
            assert(v.categories.subrange(0, v.categories.len() as int) =~= v.categories);
        }
        out
    }
}

} // verus!

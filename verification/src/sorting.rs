//! Sorting the IPO list by a column, ascending or descending, keeping the
//! order of records that tie.

use vstd::prelude::*;

use crate::date::{date_lt, Date};
use crate::decimal::{compare, lemma_value_order_laws, value_order, Decimal};
use crate::text::chars_of;
use crate::types::{status_name, Ipo};

verus! {

/// The columns the IPO list sorts by.
#[derive(Debug, Clone, Copy, PartialEq, Eq, Structural)]
pub enum SortCol {
    Name,
    Status,
    Band,
    Lot,
    IssueSize,
    Subscription,
    OpenDate,
}

/// Sort direction.
#[derive(Debug, Clone, Copy, PartialEq, Eq, Structural)]
pub enum SortDir {
    Asc,
    Desc,
}

/// The dossier's tabs.
#[derive(Debug, Clone, Copy, PartialEq, Eq, Structural)]
pub enum DetailTab {
    Overview,
    Subscription,
    Performance,
    Docs,
}

/// Three-way order of two texts, code point by code point (how `String`
/// orders its UTF-8 bytes): -1, 0 or 1.
pub open spec fn text_order(a: Seq<char>, b: Seq<char>) -> int
    decreases a.len(),
{
    if a.len() == 0 {
        if b.len() == 0 { 0 } else { -1 }
    } else if b.len() == 0 {
        1
    } else if (a[0] as u32) < (b[0] as u32) {
        -1
    } else if (a[0] as u32) > (b[0] as u32) {
        1
    } else {
        text_order(a.drop_first(), b.drop_first())
    }
}

/// Three-way order of two optional values given the order of present
/// ones: an absent value sorts first.
pub open spec fn option_order(a_some: bool, b_some: bool, inner: int) -> int {
    if !a_some && !b_some {
        0
    } else if !a_some {
        -1
    } else if !b_some {
        1
    } else {
        inner
    }
}

pub open spec fn int_order(a: int, b: int) -> int {
    if a < b {
        -1
    } else if a == b {
        0
    } else {
        1
    }
}

pub open spec fn date_order(a: Date, b: Date) -> int {
    if date_lt(a, b) {
        -1
    } else if a == b {
        0
    } else {
        1
    }
}

pub open spec fn amount_order(a: Option<Decimal>, b: Option<Decimal>) -> int {
    option_order(
        a is Some,
        b is Some,
        if a is Some && b is Some {
            value_order(a->0, b->0)
        } else {
            0
        },
    )
}

/// Ascending order of two records by a column.
pub open spec fn column_order(a: Ipo, b: Ipo, col: SortCol) -> int {
    match col {
        SortCol::Name => text_order(a.company_name@, b.company_name@),
        SortCol::Status => text_order(status_name(a.status), status_name(b.status)),
        SortCol::Band => amount_order(a.price_band_low, b.price_band_low),
        SortCol::Lot => option_order(
            a.lot_size is Some,
            b.lot_size is Some,
            if a.lot_size is Some && b.lot_size is Some {
                int_order(a.lot_size->0 as int, b.lot_size->0 as int)
            } else {
                0
            },
        ),
        SortCol::IssueSize => amount_order(a.issue_size_cr, b.issue_size_cr),
        SortCol::Subscription => 0,
        SortCol::OpenDate => option_order(
            a.open_date is Some,
            b.open_date is Some,
            if a.open_date is Some && b.open_date is Some {
                date_order(a.open_date->0, b.open_date->0)
            } else {
                0
            },
        ),
    }
}

/// Order of two records by a column in a direction.
pub open spec fn key_order(a: Ipo, b: Ipo, col: SortCol, dir: SortDir) -> int {
    match dir {
        SortDir::Asc => column_order(a, b, col),
        SortDir::Desc => -column_order(a, b, col),
    }
}

/// Where `x` goes in `out`: before the first record that sorts after it.
pub open spec fn insert_pos(out: Seq<Ipo>, x: Ipo, col: SortCol, dir: SortDir, i: int) -> int
    decreases out.len() - i,
{
    if i >= out.len() || i < 0 {
        out.len() as int
    } else if key_order(out[i], x, col, dir) > 0 {
        i
    } else {
        insert_pos(out, x, col, dir, i + 1)
    }
}

/// The records inserted one by one, in their order, each after every
/// record that does not sort after it: the stable sort.
pub open spec fn stable_sorted(s: Seq<Ipo>, col: SortCol, dir: SortDir) -> Seq<Ipo>
    decreases s.len(),
{
    if s.len() == 0 {
        Seq::empty()
    } else {
        let out = stable_sorted(s.drop_last(), col, dir);
        out.insert(insert_pos(out, s.last(), col, dir, 0), s.last())
    }
}

fn text_order_of(a: &String, b: &String) -> (r: i8)
    ensures
        r as int == text_order(a@, b@),
{
    let x = chars_of(a.as_str());
    let y = chars_of(b.as_str());
    let mut i: usize = 0;
    assert(x@.skip(0) =~= x@);
    assert(y@.skip(0) =~= y@);
    while i < x.len() && i < y.len()
        invariant
            i <= x.len(),
            i <= y.len(),
            x@ == a@,
            y@ == b@,
            text_order(x@, y@) == text_order(x@.skip(i as int), y@.skip(i as int)),
        decreases x.len() - i,
    {
        assert(x@.skip(i as int)[0] == x@[i as int]);
        assert(y@.skip(i as int)[0] == y@[i as int]);
        assert(x@.skip(i as int).drop_first() =~= x@.skip(i + 1));
        assert(y@.skip(i as int).drop_first() =~= y@.skip(i + 1));
        if (x[i] as u32) < (y[i] as u32) {
            return -1;
        }
        if (x[i] as u32) > (y[i] as u32) {
            return 1;
        }
        i = i + 1;
    }
    if x.len() == i && y.len() == i {
        assert(x@.skip(i as int).len() == 0 && y@.skip(i as int).len() == 0);
        0
    } else if x.len() == i {
        -1
    } else {
        1
    }
}

fn amount_order_of(a: Option<Decimal>, b: Option<Decimal>) -> (r: i8)
    requires
        a matches Some(x) ==> x.wf(),
        b matches Some(x) ==> x.wf(),
    ensures
        r as int == amount_order(a, b),
{
    match (a, b) {
        (None, None) => 0,
        (None, Some(_)) => -1,
        (Some(_), None) => 1,
        (Some(x), Some(y)) => compare(x, y),
    }
}

fn column_order_of(a: &Ipo, b: &Ipo, col: SortCol) -> (r: i8)
    requires
        a.wf(),
        b.wf(),
    ensures
        r as int == column_order(*a, *b, col),
        -1 <= r <= 1,
{
    proof {
        lemma_text_order_range(a.company_name@, b.company_name@);
        lemma_text_order_range(status_name(a.status), status_name(b.status));
    }
    match col {
        SortCol::Name => text_order_of(&a.company_name, &b.company_name),
        SortCol::Status => {
            let x = a.status.as_str().to_owned();
            let y = b.status.as_str().to_owned();
            text_order_of(&x, &y)
        },
        SortCol::Band => amount_order_of(a.price_band_low, b.price_band_low),
        SortCol::Lot => match (a.lot_size, b.lot_size) {
            (None, None) => 0,
            (None, Some(_)) => -1,
            (Some(_), None) => 1,
            (Some(x), Some(y)) => if x < y {
                -1
            } else if x == y {
                0
            } else {
                1
            },
        },
        SortCol::IssueSize => amount_order_of(a.issue_size_cr, b.issue_size_cr),
        SortCol::Subscription => 0,
        SortCol::OpenDate => match (a.open_date, b.open_date) {
            (None, None) => 0,
            (None, Some(_)) => -1,
            (Some(_), None) => 1,
            (Some(x), Some(y)) => if crate::date::date_before(x, y) {
                -1
            } else if x == y {
                0
            } else {
                1
            },
        },
    }
}

proof fn lemma_text_order_range(a: Seq<char>, b: Seq<char>)
    ensures
        -1 <= text_order(a, b) <= 1,
    decreases a.len(),
{
    if a.len() > 0 && b.len() > 0 && (a[0] as u32) == (b[0] as u32) {
        lemma_text_order_range(a.drop_first(), b.drop_first());
    }
}

fn key_order_of(a: &Ipo, b: &Ipo, col: SortCol, dir: SortDir) -> (r: i8)
    requires
        a.wf(),
        b.wf(),
    ensures
        r as int == key_order(*a, *b, col, dir),
{
    let o = column_order_of(a, b, col);
    match dir {
        SortDir::Asc => o,
        SortDir::Desc => 0 - o,
    }
}

/// Sort the list in place by `col` in direction `dir`; records that tie
/// keep their order (the stable sort), and under `Subscription` every
/// record ties.
pub fn sort_ipos(ipos: &mut Vec<Ipo>, col: SortCol, dir: SortDir)
    requires
        forall|i: int| 0 <= i < old(ipos).len() ==> (#[trigger] old(ipos)@[i]).wf(),
    ensures
        final(ipos)@ == stable_sorted(old(ipos)@, col, dir),
{
    let ghost orig = ipos@;
    let n = ipos.len();
    assert(orig.len() == n);
    let mut out: Vec<Ipo> = Vec::new();
    let mut k: usize = 0;
    while ipos.len() > 0
        invariant
            k <= orig.len(),
            ipos@ == orig.skip(k as int),
            ipos.len() == orig.len() - k,
            orig.len() <= usize::MAX,
            out@ == stable_sorted(orig.take(k as int), col, dir),
            forall|i: int| 0 <= i < orig.len() ==> (#[trigger] orig[i]).wf(),
            forall|i: int| 0 <= i < out.len() ==> (#[trigger] out@[i]).wf(),
        decreases ipos.len(),
    {
        assert(orig.skip(k as int)[0] == orig[k as int]);
        let x = ipos.remove(0);
        assert(ipos@ =~= orig.skip(k + 1));
        assert(orig.take(k + 1).drop_last() =~= orig.take(k as int));
        assert(orig.take(k + 1).last() == x);
        assert(x.wf());
        let ghost sorted = out@;
        let mut p: usize = 0;
        while p < out.len() && key_order_of(&out[p], &x, col, dir) <= 0
            invariant
                p <= out.len(),
                x.wf(),
                out@ == sorted,
                forall|i: int| 0 <= i < out.len() ==> (#[trigger] out@[i]).wf(),
                insert_pos(sorted, x, col, dir, 0) == insert_pos(sorted, x, col, dir, p as int),
            decreases out.len() - p,
        {
            p = p + 1;
        }
        assert(insert_pos(sorted, x, col, dir, p as int) == p);
        out.insert(p, x);
        proof {
            assert forall|i: int| 0 <= i < out.len() implies (#[trigger] out@[i]).wf() by {
                if i < p {
                    assert(out@[i] == sorted[i]);
                } else if i > p {
                    assert(out@[i] == sorted[i - 1]);
                }
            }
        }
        k = k + 1;
    }
    assert(orig.skip(k as int).len() == 0);
    assert(orig.take(k as int) =~= orig);
    *ipos = out;
}

// ---------------------------------------------------------------------------
// What sorting guarantees
// ---------------------------------------------------------------------------

/// Every record of `s` sorts no later than each one after it.
pub open spec fn sorted_by(s: Seq<Ipo>, col: SortCol, dir: SortDir) -> bool {
    forall|i: int, j: int| 0 <= i < j < s.len() ==> key_order(#[trigger] s[i], #[trigger] s[j], col, dir) <= 0
}

proof fn lemma_text_order_antisym(a: Seq<char>, b: Seq<char>)
    ensures
        text_order(a, b) == -text_order(b, a),
    decreases a.len(),
{
    if a.len() > 0 && b.len() > 0 && (a[0] as u32) == (b[0] as u32) {
        lemma_text_order_antisym(a.drop_first(), b.drop_first());
    }
}

proof fn lemma_text_order_trans(a: Seq<char>, b: Seq<char>, c: Seq<char>)
    requires
        text_order(a, b) <= 0,
        text_order(b, c) <= 0,
    ensures
        text_order(a, c) <= 0,
    decreases a.len(),
{
    if a.len() > 0 && b.len() > 0 && c.len() > 0 && (a[0] as u32) == (b[0] as u32) && (b[0] as u32)
        == (c[0] as u32) {
        lemma_text_order_trans(a.drop_first(), b.drop_first(), c.drop_first());
    }
}

proof fn lemma_column_order_laws(a: Ipo, b: Ipo, c: Ipo, col: SortCol)
    ensures
        column_order(a, b, col) == -column_order(b, a, col),
        column_order(a, b, col) <= 0 && column_order(b, c, col) <= 0 ==> column_order(a, c, col) <= 0,
{
    match col {
        SortCol::Name => {
            lemma_text_order_antisym(a.company_name@, b.company_name@);
            if column_order(a, b, col) <= 0 && column_order(b, c, col) <= 0 {
                lemma_text_order_trans(a.company_name@, b.company_name@, c.company_name@);
            }
        },
        SortCol::Status => {
            lemma_text_order_antisym(status_name(a.status), status_name(b.status));
            if column_order(a, b, col) <= 0 && column_order(b, c, col) <= 0 {
                lemma_text_order_trans(status_name(a.status), status_name(b.status), status_name(c.status));
            }
        },
        SortCol::Band => {
            if a.price_band_low is Some && b.price_band_low is Some && c.price_band_low is Some {
                lemma_value_order_laws(a.price_band_low->0, b.price_band_low->0, c.price_band_low->0);
            } else if a.price_band_low is Some && b.price_band_low is Some {
                lemma_value_order_laws(a.price_band_low->0, b.price_band_low->0, b.price_band_low->0);
            }
        },
        SortCol::IssueSize => {
            if a.issue_size_cr is Some && b.issue_size_cr is Some && c.issue_size_cr is Some {
                lemma_value_order_laws(a.issue_size_cr->0, b.issue_size_cr->0, c.issue_size_cr->0);
            } else if a.issue_size_cr is Some && b.issue_size_cr is Some {
                lemma_value_order_laws(a.issue_size_cr->0, b.issue_size_cr->0, b.issue_size_cr->0);
            }
        },
        _ => {},
    }
}

proof fn lemma_key_order_laws(a: Ipo, b: Ipo, c: Ipo, col: SortCol, dir: SortDir)
    ensures
        key_order(a, b, col, dir) == -key_order(b, a, col, dir),
        key_order(a, b, col, dir) <= 0 && key_order(b, c, col, dir) <= 0 ==> key_order(a, c, col, dir) <= 0,
{
    lemma_column_order_laws(a, b, c, col);
    lemma_column_order_laws(c, b, a, col);
    lemma_column_order_laws(a, c, b, col);
}

proof fn lemma_insert_pos(out: Seq<Ipo>, x: Ipo, col: SortCol, dir: SortDir, i: int)
    requires
        0 <= i <= out.len(),
    ensures
        i <= insert_pos(out, x, col, dir, i) <= out.len(),
        forall|k: int| i <= k < insert_pos(out, x, col, dir, i) ==> key_order(#[trigger] out[k], x, col, dir) <= 0,
        insert_pos(out, x, col, dir, i) < out.len() ==> key_order(out[insert_pos(out, x, col, dir, i)], x, col, dir) > 0,
    decreases out.len() - i,
{
    if i < out.len() && key_order(out[i], x, col, dir) <= 0 {
        lemma_insert_pos(out, x, col, dir, i + 1);
    }
}

/// Sorting rearranges the list: the same records, each as often.
pub proof fn lemma_sort_permutes(s: Seq<Ipo>, col: SortCol, dir: SortDir)
    ensures
        stable_sorted(s, col, dir).to_multiset() == s.to_multiset(),
    decreases s.len(),
{
    if s.len() > 0 {
        let out = stable_sorted(s.drop_last(), col, dir);
        lemma_sort_permutes(s.drop_last(), col, dir);
        lemma_insert_pos(out, s.last(), col, dir, 0);
        let p = insert_pos(out, s.last(), col, dir, 0);
        vstd::seq_lib::to_multiset_insert(out, p, s.last());
        vstd::seq_lib::to_multiset_build(s.drop_last(), s.last());
        assert(s.drop_last().push(s.last()) =~= s);
    } else {
        assert(stable_sorted(s, col, dir) =~= s);
    }
}

/// Sorting orders the list: no record sorts after one that follows it.
pub proof fn lemma_sort_orders(s: Seq<Ipo>, col: SortCol, dir: SortDir)
    ensures
        sorted_by(stable_sorted(s, col, dir), col, dir),
        stable_sorted(s, col, dir).len() == s.len(),
    decreases s.len(),
{
    if s.len() > 0 {
        let out = stable_sorted(s.drop_last(), col, dir);
        let x = s.last();
        lemma_sort_orders(s.drop_last(), col, dir);
        lemma_insert_pos(out, x, col, dir, 0);
        let p = insert_pos(out, x, col, dir, 0);
        let r = out.insert(p, x);
        assert forall|i: int, j: int| 0 <= i < j < r.len() implies key_order(#[trigger] r[i], #[trigger] r[j], col, dir) <= 0 by {
            if j < p {
                assert(r[i] == out[i] && r[j] == out[j]);
            } else if j == p {
                assert(r[i] == out[i] && r[j] == x);
            } else if i < p {
                assert(r[i] == out[i] && r[j] == out[j - 1]);
                lemma_key_order_laws(out[i], x, out[p], col, dir);
                lemma_key_order_laws(x, out[p], out[j - 1], col, dir);
                lemma_key_order_laws(out[i], out[p], out[j - 1], col, dir);
                if p < j - 1 {
                    assert(key_order(out[p], out[j - 1], col, dir) <= 0);
                }
            } else if i == p {
                assert(r[i] == x && r[j] == out[j - 1]);
                lemma_key_order_laws(x, out[p], out[j - 1], col, dir);
                if p < j - 1 {
                    assert(key_order(out[p], out[j - 1], col, dir) <= 0);
                }
            } else {
                assert(r[i] == out[i - 1] && r[j] == out[j - 1]);
            }
        }
    }
}

} // verus!

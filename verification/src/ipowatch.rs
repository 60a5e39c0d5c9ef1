//! IPO Watch: the server-rendered mainboard archive of recent and upcoming
//! IPOs, the fallback for closed/listed companies NSE no longer serves.

use vstd::prelude::*;

use crate::chittorgarh::{row_view, rows_view, trimmed_rows, trimmed_table};
use crate::date::Date;
use crate::decimal::{checked_div, decimal_quotient, from_u64, int_decimal, Decimal};
use crate::html::{tables, tables_text, texts};
use crate::parse_util::{band_in, parse_band_chars, parse_period, parse_rupees_chars, period_in, rupees_in};
use crate::text::{
    chars_of, contains_seq, contains_str, lower_seq, lower_vec, split_on, split_on_vec, string_from,
    trim, trim_vec, vec_eq_str,
};
use crate::types::{derived_status, fresh_ipo, Ipo, IpoStatus};

verus! {

/// One row of the mainboard archive table.
#[derive(Debug, Clone, PartialEq)]
pub struct IpoWatchRow {
    pub company: String,
    pub period: String,
    pub issue_size: Option<Decimal>,
    pub price_band_low: Option<Decimal>,
    pub price_band_high: Option<Decimal>,
}

impl IpoWatchRow {
    pub open spec fn view(self) -> (Seq<char>, Seq<char>, Option<Decimal>, Option<Decimal>, Option<
        Decimal,
    >) {
        (self.company@, self.period@, self.issue_size, self.price_band_low, self.price_band_high)
    }
}

/// The pieces joined with `sep` between them.
pub open spec fn join_with(pieces: Seq<Seq<char>>, sep: Seq<char>) -> Seq<char>
    decreases pieces.len(),
{
    if pieces.len() == 0 {
        Seq::empty()
    } else if pieces.len() == 1 {
        pieces[0]
    } else {
        join_with(pieces.drop_last(), sep) + sep + pieces.last()
    }
}

/// `str::replace(p, r)`: every non-overlapping occurrence of `p` replaced.
pub open spec fn replace_all(s: Seq<char>, p: Seq<char>, r: Seq<char>) -> Seq<char> {
    join_with(split_on(s, p), r)
}

/// Whether a header cell names `name`, ignoring ASCII case.
pub open spec fn header_has(header: Seq<Seq<char>>, name: Seq<char>) -> bool {
    exists|i: int| 0 <= i < header.len() && lower_seq(#[trigger] header[i]) == name
}

/// The mainboard table: its header names "IPO Date" but no "Platform"
/// column (the SME table has one).
pub open spec fn is_mainboard_header(header: Seq<Seq<char>>) -> bool {
    header_has(header, "ipo date"@) && !header_has(header, "platform"@)
}

/// The archive row a body row gives: company ("&amp;" unescaped, trimmed),
/// period, issue size in crores (the rupee amount over 10^7) and band;
/// none for rows with fewer than three cells, an empty company, or a
/// "₹[.]" placeholder.
pub open spec fn archive_row(row: Seq<Seq<char>>) -> Option<
    (Seq<char>, Seq<char>, Option<Decimal>, Option<Decimal>, Option<Decimal>),
> {
    if row.len() < 3 {
        None
    } else {
        let company = trim(replace_all(row[0], "&amp;"@, "&"@));
        if company.len() == 0 || contains_seq(company, "₹[.]"@) {
            None
        } else {
            let size = match rupees_in(row[2]) {
                Some(v) => decimal_quotient(v, int_decimal(10_000_000)),
                None => None,
            };
            let band = if row.len() > 3 { band_in(row[3]) } else { None };
            Some(
                (
                    company,
                    row[1],
                    size,
                    match band {
                        Some((l, _)) => Some(l),
                        None => None,
                    },
                    match band {
                        Some((_, h)) => Some(h),
                        None => None,
                    },
                ),
            )
        }
    }
}

/// The archive rows of a table's body rows, in order.
pub open spec fn archive_rows(rows: Seq<Seq<Seq<char>>>) -> Seq<
    (Seq<char>, Seq<char>, Option<Decimal>, Option<Decimal>, Option<Decimal>),
>
    decreases rows.len(),
{
    if rows.len() == 0 {
        Seq::empty()
    } else {
        let p = archive_rows(rows.drop_last());
        match archive_row(rows.last()) {
            Some(r) => p.push(r),
            None => p,
        }
    }
}

/// The archive rows of one table: its body rows when it is the mainboard
/// table, none otherwise.
pub open spec fn archive_table(t: Seq<Seq<Seq<char>>>) -> Seq<
    (Seq<char>, Seq<char>, Option<Decimal>, Option<Decimal>, Option<Decimal>),
> {
    let rows = trimmed_rows(t);
    if rows.len() == 0 || !is_mainboard_header(rows[0]) {
        Seq::empty()
    } else {
        archive_rows(rows.drop_first())
    }
}

/// The archive rows of every table, in order.
pub open spec fn archive_of(ts: Seq<Seq<Seq<Seq<char>>>>) -> Seq<
    (Seq<char>, Seq<char>, Option<Decimal>, Option<Decimal>, Option<Decimal>),
>
    decreases ts.len(),
{
    if ts.len() == 0 {
        Seq::empty()
    } else {
        archive_of(ts.drop_last()) + archive_table(ts.last())
    }
}

fn header_has_vec(header: &Vec<Vec<char>>, name: &str) -> (r: bool)
    ensures
        r == header_has(row_view(*header), name@),
{
    let ghost g = row_view(*header);
    let mut i: usize = 0;
    while i < header.len()
        invariant
            i <= header.len(),
            g == row_view(*header),
            forall|k: int| 0 <= k < i ==> lower_seq(#[trigger] g[k]) != name@,
        decreases header.len() - i,
    {
        assert(g[i as int] == header@[i as int]@);
        let l = lower_vec(&header[i]);
        if vec_eq_str(&l, name) {
            return true;
        }
        i = i + 1;
    }
    false
}

pub fn join_pieces(pieces: &Vec<Vec<char>>, sep: &Vec<char>) -> (r: Vec<char>)
    ensures
        r@ == join_with(pieces@.map_values(|p: Vec<char>| p@), sep@),
{
    let ghost g = pieces@.map_values(|p: Vec<char>| p@);
    let mut r: Vec<char> = Vec::new();
    let mut i: usize = 0;
    while i < pieces.len()
        invariant
            i <= pieces.len(),
            g == pieces@.map_values(|p: Vec<char>| p@),
            r@ == join_with(g.take(i as int), sep@),
        decreases pieces.len() - i,
    {
        assert(g.take(i + 1).drop_last() =~= g.take(i as int));
        assert(g.take(i + 1).last() == pieces@[i as int]@);
        let ghost before = r@;
        if i > 0 {
            let mut k: usize = 0;
            while k < sep.len()
                invariant
                    k <= sep.len(),
                    r@ == before + sep@.take(k as int),
                decreases sep.len() - k,
            {
                r.push(sep[k]);
                k = k + 1;
                assert(r@ =~= before + sep@.take(k as int));
            }
            assert(sep@.take(sep.len() as int) =~= sep@);
        }
        let ghost mid = r@;
        let p = &pieces[i];
        let mut k: usize = 0;
        while k < p.len()
            invariant
                k <= p.len(),
                r@ == mid + p@.take(k as int),
            decreases p.len() - k,
        {
            r.push(p[k]);
            k = k + 1;
            assert(r@ =~= mid + p@.take(k as int));
        }
        assert(p@.take(p.len() as int) =~= p@);
        proof {
            if i == 0 {
                assert(g.take(1) =~= seq![g[0]]);
                assert(r@ =~= p@);
            }
        }
        i = i + 1;
    }
    assert(g.take(pieces.len() as int) =~= g);
    r
}

fn archive_row_of(row: &Vec<Vec<char>>) -> (r: Option<IpoWatchRow>)
    ensures
        match r {
            Some(x) => archive_row(row_view(*row)) == Some(x.view()),
            None => archive_row(row_view(*row)) is None,
        },
{
    if row.len() < 3 {
        return None;
    }
    let ghost g = row_view(*row);
    assert(g[0] == row@[0]@ && g[1] == row@[1]@ && g[2] == row@[2]@);
    let amp = chars_of("&amp;");
    let and = chars_of("&");
    let pieces = split_on_vec(&row[0], &amp);
    assert(pieces@.map_values(|p: Vec<char>| p@) =~= split_on(row@[0]@, "&amp;"@));
    let replaced = join_pieces(&pieces, &and);
    let company = trim_vec(&replaced);
    if company.len() == 0 || contains_str(&company, "₹[.]") {
        return None;
    }
    let size = match parse_rupees_chars(&row[2]) {
        Some(v) => {
            let q = checked_div(v, from_u64(10_000_000));
            q
        },
        None => None,
    };
    let band = if row.len() > 3 {
        assert(g[3] == row@[3]@);
        parse_band_chars(&row[3])
    } else {
        None
    };
    let (low, high) = match band {
        Some((l, h)) => (Some(l), Some(h)),
        None => (None, None),
    };
    Some(
        IpoWatchRow {
            company: string_from(&company),
            period: string_from(&row[1]),
            issue_size: size,
            price_band_low: low,
            price_band_high: high,
        },
    )
}

/// Append the archive rows of one table to `out`.
fn push_archive_table(t: &Vec<Vec<String>>, out: &mut Vec<IpoWatchRow>)
    ensures
        final(out)@.map_values(|x: IpoWatchRow| x.view()) == old(out)@.map_values(
            |x: IpoWatchRow| x.view(),
        ) + archive_table(t@.map_values(|row: Vec<String>| texts(row@))),
{
    let rows = trimmed_table(t);
    let ghost g = rows_view(rows@);
    let ghost start = out@.map_values(|x: IpoWatchRow| x.view());
    if rows.len() == 0 {
        assert(start + archive_table(t@.map_values(|row: Vec<String>| texts(row@))) =~= start);
        return;
    }
    assert(g[0] == row_view(rows@[0]));
    if !(header_has_vec(&rows[0], "ipo date") && !header_has_vec(&rows[0], "platform")) {
        assert(start + archive_table(t@.map_values(|row: Vec<String>| texts(row@))) =~= start);
        return;
    }
    let ghost body = g.drop_first();
    let mut i: usize = 1;
    while i < rows.len()
        invariant
            1 <= i <= rows.len(),
            g == rows_view(rows@),
            body == g.drop_first(),
            out@.map_values(|x: IpoWatchRow| x.view()) == start + archive_rows(body.take(i - 1)),
        decreases rows.len() - i,
    {
        assert(body.take(i as int).drop_last() =~= body.take(i - 1));
        assert(body.take(i as int).last() == row_view(rows@[i as int]));
        match archive_row_of(&rows[i]) {
            Some(x) => {
                let ghost before = out@;
                out.push(x);
                assert(out@.map_values(|x: IpoWatchRow| x.view()) =~= before.map_values(
                    |x: IpoWatchRow| x.view(),
                ).push(x.view()));
            },
            None => {},
        }
        i = i + 1;
    }
    assert(body.take(rows.len() - 1) =~= body);
}

/// The archive rows of a page's tables, each table given as its rows of
/// cell texts: the body rows of every table whose header names "IPO Date"
/// but no "Platform" column.
pub fn archive_from_tables(ts: &Vec<Vec<Vec<String>>>) -> (r: Vec<IpoWatchRow>)
    ensures
        r@.map_values(|x: IpoWatchRow| x.view()) == archive_of(tables_text(ts@)),
{
    let ghost g = tables_text(ts@);
    let mut out: Vec<IpoWatchRow> = Vec::new();
    let mut i: usize = 0;
    while i < ts.len()
        invariant
            i <= ts.len(),
            g == tables_text(ts@),
            out@.map_values(|x: IpoWatchRow| x.view()) == archive_of(g.take(i as int)),
        decreases ts.len() - i,
    {
        assert(g.take(i + 1).drop_last() =~= g.take(i as int));
        assert(g.take(i + 1).last() == ts@[i as int]@.map_values(|row: Vec<String>| texts(row@)));
        push_archive_table(&ts[i], &mut out);
        i = i + 1;
    }
    assert(g.take(ts.len() as int) =~= g);
    out
}

/// Parse the archive page: the mainboard table is the one whose header
/// names "IPO Date" (Company | IPO Date | IPO Size | IPO Price Band |
/// Application) but no "Platform" column, which marks the SME table.
pub fn parse_archive(html: &str) -> (r: Result<Vec<IpoWatchRow>, crate::error::Error>)
    ensures
        r matches Ok(v) && v@.map_values(|x: IpoWatchRow| x.view()) == archive_of(
            crate::html::document_tables(html@),
        ),
{
    let ts = tables(html);
    Ok(archive_from_tables(&ts))
}

/// The record an archive row gives for `today`: a fresh record from source
/// "ipowatch" with the row's window (when its period parses), size and band,
/// and the status those dates derive (the archive gives no listing date).
pub open spec fn watch_record(
    row: (Seq<char>, Seq<char>, Option<Decimal>, Option<Decimal>, Option<Decimal>),
    today: Date,
    ipo: Ipo,
) -> bool {
    let window = period_in(row.1, today);
    let open = match window {
        Some((o, _)) => Some(o),
        None => None,
    };
    let close = match window {
        Some((_, c)) => Some(c),
        None => None,
    };
    &&& fresh_ipo(row.0, "ipowatch"@, Ipo { status: IpoStatus::Upcoming, open_date: None, close_date: None, issue_size_cr: None, price_band_low: None, price_band_high: None, ..ipo })
    &&& ipo.open_date == open
    &&& ipo.close_date == close
    &&& ipo.issue_size_cr == row.2
    &&& ipo.price_band_low == row.3
    &&& ipo.price_band_high == row.4
    &&& ipo.status == derived_status(open, close, None, today)
}

/// Convert archive rows into IPO records, each with its status derived for
/// `today`.
pub fn rows_to_ipos(rows: &Vec<IpoWatchRow>, today: Date) -> (r: Vec<Ipo>)
    ensures
        r.len() == rows.len(),
        forall|i: int| 0 <= i < rows.len() ==> watch_record(#[trigger] rows@[i].view(), today, r@[i]),
{
    let mut out: Vec<Ipo> = Vec::new();
    let mut i: usize = 0;
    while i < rows.len()
        invariant
            i <= rows.len(),
            out.len() == i,
            forall|k: int| 0 <= k < i ==> watch_record(#[trigger] rows@[k].view(), today, out@[k]),
        decreases rows.len() - i,
    {
        let row = &rows[i];
        let mut ipo = Ipo::new(row.company.as_str(), "ipowatch");
        match parse_period(row.period.as_str(), today) {
            Some((open, close)) => {
                ipo.open_date = Some(open);
                ipo.close_date = Some(close);
            },
            None => {},
        }
        ipo.issue_size_cr = row.issue_size;
        ipo.price_band_low = row.price_band_low;
        ipo.price_band_high = row.price_band_high;
        ipo.derive_status(today);
        out.push(ipo);
        i = i + 1;
    }
    out
}

} // verus!

//! Chittorgarh pages: the dashboard calendar and the per-IPO detail page.
//!
//! Only the classic server-rendered pages are read: the dashboard for the
//! current calendar and the detail pages for enrichment.

use vstd::prelude::*;

use crate::date::Date;
use crate::decimal::Decimal;
use crate::html::{first_h1, opt_texts, row_text, rows_text, table_rows, tables, tables_text, texts, HtmlRow};
use crate::parse_util::{
    band_in, day_month_year, int_in, month_day, parse_band_chars, parse_day_month_year_chars,
    parse_int_chars, parse_month_day_in, parse_period_chars, parse_rupees_chars, period_in,
    rupees_in,
};
use crate::types::{category_from_label, derived_status, normalized_name, Ipo, IpoStatus, SubCategory};
use crate::text::{
    chars_of, collapse_ws, collapse_ws_vec, contains_seq, contains_str, find_first_from,
    first_occurrence, first_occurrence_vec, is_digit, is_digit_char, lemma_find_first_occurs,
    lower_seq, lower_vec, occurs_at, slice_vec, split_on, split_on_vec, string_from, trim,
    trim_vec, vec_eq_str,
};

verus! {

// ---------------------------------------------------------------------------
// Dashboard
// ---------------------------------------------------------------------------

/// One row of the dashboard calendar: company + issue window + detail URL.
#[derive(Debug, Clone, PartialEq)]
pub struct DashboardEntry {
    pub company: String,
    pub period: String,
    pub detail_url: Option<String>,
}

impl DashboardEntry {
    /// (company, period, detail URL) as text.
    pub open spec fn view(self) -> (Seq<char>, Seq<char>, Option<Seq<char>>) {
        (
            self.company@,
            self.period@,
            match self.detail_url {
                Some(u) => Some(u@),
                None => None,
            },
        )
    }
}

/// The trimmed cells of a row that are not empty, in order.
pub open spec fn nonempty_trimmed(cells: Seq<Seq<char>>) -> Seq<Seq<char>>
    decreases cells.len(),
{
    if cells.len() == 0 {
        Seq::empty()
    } else {
        let p = nonempty_trimmed(cells.drop_last());
        let t = trim(cells.last());
        if t.len() == 0 { p } else { p.push(t) }
    }
}

/// The first link target (from position `i` on) that contains `pat`.
pub open spec fn first_link_with(links: Seq<Option<Seq<char>>>, pat: Seq<char>, i: int) -> Option<
    Seq<char>,
>
    decreases links.len() - i,
{
    if i < 0 || i >= links.len() {
        None
    } else if links[i] matches Some(l) && crate::text::contains_seq(l, pat) {
        links[i]
    } else {
        first_link_with(links, pat, i + 1)
    }
}

/// The dashboard entry a table row gives: its first two non-empty trimmed
/// cells as company and period (period empty when missing), and its first
/// link containing "/ipo/"; none for rows without cells or for the header
/// row (first cell "company", any case).
pub open spec fn dashboard_entry(row: (Seq<Seq<char>>, Seq<Option<Seq<char>>>)) -> Option<
    (Seq<char>, Seq<char>, Option<Seq<char>>),
> {
    let cells = nonempty_trimmed(row.0);
    if cells.len() == 0 || lower_seq(cells[0]) == "company"@ {
        None
    } else {
        Some(
            (
                cells[0],
                if cells.len() > 1 { cells[1] } else { Seq::empty() },
                first_link_with(row.1, "/ipo/"@, 0),
            ),
        )
    }
}

/// The dashboard entries of a sequence of table rows, in order.
pub open spec fn dashboard_entries(rows: Seq<(Seq<Seq<char>>, Seq<Option<Seq<char>>>)>) -> Seq<
    (Seq<char>, Seq<char>, Option<Seq<char>>),
>
    decreases rows.len(),
{
    if rows.len() == 0 {
        Seq::empty()
    } else {
        let p = dashboard_entries(rows.drop_last());
        match dashboard_entry(rows.last()) {
            Some(e) => p.push(e),
            None => p,
        }
    }
}

fn nonempty_trimmed_vec(cells: &Vec<String>) -> (r: Vec<Vec<char>>)
    ensures
        r@.map_values(|c: Vec<char>| c@) == nonempty_trimmed(texts(cells@)),
{
    let ghost g = texts(cells@);
    let mut r: Vec<Vec<char>> = Vec::new();
    let mut i: usize = 0;
    while i < cells.len()
        invariant
            i <= cells.len(),
            g == texts(cells@),
            r@.map_values(|c: Vec<char>| c@) == nonempty_trimmed(g.take(i as int)),
        decreases cells.len() - i,
    {
        assert(g.take(i + 1).drop_last() =~= g.take(i as int));
        assert(g.take(i + 1).last() == cells@[i as int]@);
        let t = trim_vec(&chars_of(cells[i].as_str()));
        if t.len() > 0 {
            let ghost before = r@;
            r.push(t);
            assert(r@.map_values(|c: Vec<char>| c@) =~= before.map_values(|c: Vec<char>| c@).push(
                t@,
            ));
        }
        i = i + 1;
    }
    assert(g.take(cells.len() as int) =~= g);
    r
}

fn first_link_with_vec(links: &Vec<Option<String>>, pat: &str) -> (r: Option<String>)
    ensures
        match r {
            Some(u) => first_link_with(opt_texts(links@), pat@, 0) == Some(u@),
            None => first_link_with(opt_texts(links@), pat@, 0) == None::<Seq<char>>,
        },
{
    let ghost g = opt_texts(links@);
    let p = chars_of(pat);
    let mut i: usize = 0;
    while i < links.len()
        invariant
            i <= links.len(),
            g == opt_texts(links@),
            p@ == pat@,
            first_link_with(g, pat@, 0) == first_link_with(g, pat@, i as int),
        decreases links.len() - i,
    {
        match &links[i] {
            Some(h) => {
                let l = chars_of(h.as_str());
                if crate::text::contains_vec(&l, &p) {
                    return Some(h.clone());
                }
            },
            None => {},
        }
        i = i + 1;
    }
    None
}

/// The dashboard entry a table row gives, if any.
pub fn dashboard_entry_of(row: &HtmlRow) -> (r: Option<DashboardEntry>)
    ensures
        match r {
            Some(e) => dashboard_entry(row_text(*row)) == Some(e.view()),
            None => dashboard_entry(row_text(*row)) is None,
        },
{
    let cells = nonempty_trimmed_vec(&row.cells);
    let ghost gc = cells@.map_values(|c: Vec<char>| c@);
    if cells.len() == 0 {
        return None;
    }
    assert(gc[0] == cells@[0]@);
    let first_lower = lower_vec(&cells[0]);
    if vec_eq_str(&first_lower, "company") {
        return None;
    }
    let period = if cells.len() > 1 {
        assert(gc[1] == cells@[1]@);
        string_from(&cells[1])
    } else {
        String::new()
    };
    let detail_url = first_link_with_vec(&row.links, "/ipo/");
    Some(DashboardEntry { company: string_from(&cells[0]), period, detail_url })
}

/// The dashboard entries of a sequence of table rows, in order.
pub fn dashboard_from_rows(rows: &Vec<HtmlRow>) -> (r: Vec<DashboardEntry>)
    ensures
        r@.map_values(|e: DashboardEntry| e.view()) == dashboard_entries(rows_text(rows@)),
{
    let ghost g = rows_text(rows@);
    let mut r: Vec<DashboardEntry> = Vec::new();
    let mut i: usize = 0;
    while i < rows.len()
        invariant
            i <= rows.len(),
            g == rows_text(rows@),
            r@.map_values(|e: DashboardEntry| e.view()) == dashboard_entries(g.take(i as int)),
        decreases rows.len() - i,
    {
        assert(g.take(i + 1).drop_last() =~= g.take(i as int));
        assert(g.take(i + 1).last() == row_text(rows@[i as int]));
        match dashboard_entry_of(&rows[i]) {
            Some(e) => {
                let ghost before = r@;
                r.push(e);
                assert(r@.map_values(|e: DashboardEntry| e.view()) =~= before.map_values(
                    |e: DashboardEntry| e.view(),
                ).push(e.view()));
            },
            None => {},
        }
        i = i + 1;
    }
    assert(g.take(rows.len() as int) =~= g);
    r
}

/// Parse the dashboard's current-IPO table (Company | Issue Date) with
/// per-row detail links: one entry per table row with a non-empty cell,
/// header rows skipped.
pub fn parse_dashboard(html: &str) -> (r: Result<Vec<DashboardEntry>, crate::error::Error>)
    ensures
        r matches Ok(v) && v@.map_values(|e: DashboardEntry| e.view()) == dashboard_entries(
            crate::html::document_table_rows(html@),
        ),
{
    let rows = table_rows(html);
    Ok(dashboard_from_rows(&rows))
}

// ---------------------------------------------------------------------------
// Embedded NSE symbol
// ---------------------------------------------------------------------------

/// `s` without its leading `"` and `\` characters.
pub open spec fn skip_quotes(s: Seq<char>) -> Seq<char>
    decreases s.len(),
{
    if s.len() > 0 && (s[0] == '"' || s[0] == '\\') {
        skip_quotes(s.drop_first())
    } else {
        s
    }
}

pub open spec fn upper_or_digit(c: char) -> bool {
    ('A' <= c && c <= 'Z') || is_digit(c)
}

/// The leading run of ASCII upper-case letters and digits of `s`.
pub open spec fn upper_digit_prefix(s: Seq<char>) -> Seq<char>
    decreases s.len(),
{
    if s.len() > 0 && upper_or_digit(s[0]) {
        seq![s[0]] + upper_digit_prefix(s.drop_first())
    } else {
        Seq::empty()
    }
}

/// The symbol that a `symbol` occurrence ending at `end` introduces: after
/// the next `:`, quotes and backslashes skipped, a run of at least two
/// upper-case letters or digits.
pub open spec fn symbol_after(h: Seq<char>, end: int) -> Option<Seq<char>> {
    let rest = h.subrange(end, h.len() as int);
    match first_occurrence(rest, seq![':']) {
        Some(c) => {
            let tok = upper_digit_prefix(skip_quotes(rest.subrange(c + 1, rest.len() as int)));
            if tok.len() >= 2 { Some(tok) } else { None }
        },
        None => None,
    }
}

/// The first symbol introduced by a `symbol` occurrence at or after `from`.
pub open spec fn embedded_symbol_from(h: Seq<char>, from: int) -> Option<Seq<char>>
    decreases h.len() - from,
    when 0 <= from
{
    match find_first_from(h, "symbol"@, from) {
        Some(start) => {
            proof {
                lemma_find_first_occurs(h, "symbol"@, from);
                reveal_strlit("symbol");
            }
            match symbol_after(h, start + 6) {
                Some(t) => Some(t),
                None => if start + 6 >= h.len() {
                    None
                } else {
                    embedded_symbol_from(h, start + 6)
                },
            }
        },
        None => None,
    }
}

fn skip_quotes_from(v: &Vec<char>, from: usize) -> (r: usize)
    requires
        from <= v.len(),
    ensures
        from <= r <= v.len(),
        skip_quotes(v@.subrange(from as int, v.len() as int)) == v@.subrange(r as int, v.len() as int),
{
    let mut i = from;
    while i < v.len() && (v[i] == '"' || v[i] == '\\')
        invariant
            from <= i <= v.len(),
            skip_quotes(v@.subrange(from as int, v.len() as int)) == skip_quotes(
                v@.subrange(i as int, v.len() as int),
            ),
        decreases v.len() - i,
    {
        assert(v@.subrange(i as int, v.len() as int).drop_first() =~= v@.subrange(
            i + 1,
            v.len() as int,
        ));
        i = i + 1;
    }
    i
}

fn upper_digit_prefix_from(v: &Vec<char>, from: usize) -> (r: Vec<char>)
    requires
        from <= v.len(),
    ensures
        r@ == upper_digit_prefix(v@.subrange(from as int, v.len() as int)),
{
    let mut i = from;
    while i < v.len() && (('A' <= v[i] && v[i] <= 'Z') || is_digit_char(v[i]))
        invariant
            from <= i <= v.len(),
            forall|k: int| from <= k < i ==> upper_or_digit(#[trigger] v@[k]),
        decreases v.len() - i,
    {
        i = i + 1;
    }
    proof {
        lemma_upper_digit_prefix(v@, from as int, i as int);
    }
    slice_vec(v, from, i)
}

proof fn lemma_upper_digit_prefix(v: Seq<char>, from: int, i: int)
    requires
        0 <= from <= i <= v.len(),
        forall|k: int| from <= k < i ==> upper_or_digit(#[trigger] v[k]),
        i == v.len() || !upper_or_digit(v[i]),
    ensures
        upper_digit_prefix(v.subrange(from, v.len() as int)) == v.subrange(from, i),
    decreases i - from,
{
    let s = v.subrange(from, v.len() as int);
    if from < i {
        lemma_upper_digit_prefix(v, from + 1, i);
        assert(s.drop_first() =~= v.subrange(from + 1, v.len() as int));
        assert(v.subrange(from, i) =~= seq![v[from]] + v.subrange(from + 1, i));
    } else {
        assert(v.subrange(from, i) =~= Seq::<char>::empty());
    }
}

fn symbol_after_vec(h: &Vec<char>, end: usize) -> (r: Option<Vec<char>>)
    requires
        end <= h.len(),
    ensures
        match r {
            Some(t) => symbol_after(h@, end as int) == Some(t@),
            None => symbol_after(h@, end as int) is None,
        },
{
    let rest = slice_vec(h, end, h.len());
    let mut colon: Vec<char> = Vec::new();
    colon.push(':');
    assert(colon@ =~= seq![':']);
    match first_occurrence_vec(&rest, &colon) {
        Some(c) => {
            proof {
                assert(find_first_from(rest@, colon@, 0) == Some(c as int));
                lemma_find_first_occurs(rest@, colon@, 0);
            }
            assert(c + 1 <= rest.len());
            let s = skip_quotes_from(&rest, c + 1);
            let tok = upper_digit_prefix_from(&rest, s);
            if tok.len() >= 2 {
                Some(tok)
            } else {
                None
            }
        },
        None => None,
    }
}

/// Hand-rolled extraction of the NSE symbol embedded in the page payload:
/// `symbol":"MANIPALHOS"` (with optional backslash escapes).
pub fn extract_embedded_symbol(haystack: &str) -> (r: Option<String>)
    ensures
        match r {
            Some(t) => embedded_symbol_from(haystack@, 0) == Some(t@),
            None => embedded_symbol_from(haystack@, 0) is None,
        },
{
    let h = chars_of(haystack);
    let key = chars_of("symbol");
    proof {
        reveal_strlit("symbol");
    }
    let mut search_from: usize = 0;
    while search_from <= h.len()
        invariant
            h@ == haystack@,
            key@ == "symbol"@,
            key@.len() == 6,
            search_from <= h.len(),
            embedded_symbol_from(h@, 0) == embedded_symbol_from(h@, search_from as int),
        decreases h.len() - search_from,
    {
        match crate::text::find_from(&h, &key, search_from) {
            Some(start) => {
                proof {
                    lemma_find_first_some_from(h@, key@, search_from as int, start as int);
                }
                assert(start + 6 <= h.len());
                match symbol_after_vec(&h, start + 6) {
                    Some(t) => {
                        assert(embedded_symbol_from(h@, search_from as int) == Some(t@));
                        return Some(string_from(&t));
                    },
                    None => {},
                }
                if start + 6 >= h.len() {
                    assert(embedded_symbol_from(h@, search_from as int) is None);
                    return None;
                }
                search_from = start + 6;
            },
            None => {
                proof {
                    crate::text::lemma_find_first_none(h@, key@, search_from as int);
                }
                return None;
            },
        }
    }
    None
}

proof fn lemma_find_first_some_from(s: Seq<char>, p: Seq<char>, from: int, i: int)
    requires
        0 <= from <= i,
        occurs_at(s, p, i),
        forall|j: int| from <= j < i ==> !occurs_at(s, p, j),
    ensures
        find_first_from(s, p, from) == Some(i),
{
    crate::text::lemma_find_first_some(s, p, from, i);
}

// ---------------------------------------------------------------------------
// Detail page
// ---------------------------------------------------------------------------

/// One final-day subscription row of a detail page. The times-subscribed
/// cell is kept as text: it is read as a floating-point number outside
/// the library.
#[derive(Debug, Clone, PartialEq)]
pub struct SubscriptionRow {
    pub category: SubCategory,
    pub times_text: String,
    pub offered_shares: Option<i64>,
    pub bid_shares: Option<i64>,
}

impl SubscriptionRow {
    pub open spec fn view(self) -> (SubCategory, Seq<char>, Option<i64>, Option<i64>) {
        (self.category, self.times_text@, self.offered_shares, self.bid_shares)
    }
}

/// Parsed key facts from a Chittorgarh IPO detail page.
#[derive(Debug, Clone, PartialEq)]
pub struct ChittorgarhDetail {
    pub company: String,
    pub open_date: Option<Date>,
    pub close_date: Option<Date>,
    pub listing_date: Option<Date>,
    pub listing_date_tentative: bool,
    pub price_band_low: Option<Decimal>,
    pub price_band_high: Option<Decimal>,
    pub final_price: Option<Decimal>,
    pub face_value: Option<Decimal>,
    pub lot_size: Option<i64>,
    pub offer_type: Option<String>,
    pub issue_type: Option<String>,
    pub listing_at: Option<String>,
    pub fresh_issue_shares: Option<i64>,
    pub ofs_shares: Option<i64>,
    pub shares_offered: Option<i64>,
    /// NSE symbol, embedded in the page JSON as `symbol":"MANIPALHOS"`.
    pub symbol: Option<String>,
    /// Final-day subscription rows from the detail page (QIB/NII/Retail/Total).
    pub final_subscription: Vec<SubscriptionRow>,
}

/// A detail page's facts as plain values.
pub struct DetailView {
    pub company: Seq<char>,
    pub open_date: Option<Date>,
    pub close_date: Option<Date>,
    pub listing_date: Option<Date>,
    pub listing_date_tentative: bool,
    pub price_band_low: Option<Decimal>,
    pub price_band_high: Option<Decimal>,
    pub final_price: Option<Decimal>,
    pub face_value: Option<Decimal>,
    pub lot_size: Option<i64>,
    pub offer_type: Option<Seq<char>>,
    pub issue_type: Option<Seq<char>>,
    pub listing_at: Option<Seq<char>>,
    pub fresh_issue_shares: Option<i64>,
    pub ofs_shares: Option<i64>,
    pub shares_offered: Option<i64>,
    pub symbol: Option<Seq<char>>,
    pub final_subscription: Seq<(SubCategory, Seq<char>, Option<i64>, Option<i64>)>,
}

pub open spec fn opt_text(o: Option<String>) -> Option<Seq<char>> {
    match o {
        Some(s) => Some(s@),
        None => None,
    }
}

impl ChittorgarhDetail {
    pub open spec fn view(self) -> DetailView {
        DetailView {
            company: self.company@,
            open_date: self.open_date,
            close_date: self.close_date,
            listing_date: self.listing_date,
            listing_date_tentative: self.listing_date_tentative,
            price_band_low: self.price_band_low,
            price_band_high: self.price_band_high,
            final_price: self.final_price,
            face_value: self.face_value,
            lot_size: self.lot_size,
            offer_type: opt_text(self.offer_type),
            issue_type: opt_text(self.issue_type),
            listing_at: opt_text(self.listing_at),
            fresh_issue_shares: self.fresh_issue_shares,
            ofs_shares: self.ofs_shares,
            shares_offered: self.shares_offered,
            symbol: opt_text(self.symbol),
            final_subscription: self.final_subscription@.map_values(|r: SubscriptionRow| r.view()),
        }
    }

    /// A detail with every field empty.
    pub fn empty() -> (d: ChittorgarhDetail)
        ensures
            d.view() == empty_detail(),
    {
        let d = ChittorgarhDetail {
            company: String::new(),
            open_date: None,
            close_date: None,
            listing_date: None,
            listing_date_tentative: false,
            price_band_low: None,
            price_band_high: None,
            final_price: None,
            face_value: None,
            lot_size: None,
            offer_type: None,
            issue_type: None,
            listing_at: None,
            fresh_issue_shares: None,
            ofs_shares: None,
            shares_offered: None,
            symbol: None,
            final_subscription: Vec::new(),
        };
        assert(d.view().final_subscription =~= Seq::empty());
        d
    }
}

impl Default for ChittorgarhDetail {
    fn default() -> (d: ChittorgarhDetail)
        ensures
            d.view() == empty_detail(),
    {
        ChittorgarhDetail::empty()
    }
}

pub open spec fn empty_detail() -> DetailView {
    DetailView {
        company: Seq::empty(),
        open_date: None,
        close_date: None,
        listing_date: None,
        listing_date_tentative: false,
        price_band_low: None,
        price_band_high: None,
        final_price: None,
        face_value: None,
        lot_size: None,
        offer_type: None,
        issue_type: None,
        listing_at: None,
        fresh_issue_shares: None,
        ofs_shares: None,
        shares_offered: None,
        symbol: None,
        final_subscription: Seq::empty(),
    }
}

/// What one key-facts row ("label | value") sets.
pub open spec fn key_fact(d: DetailView, row: Seq<Seq<char>>, today: Date) -> DetailView {
    if row.len() < 2 {
        d
    } else {
        let label = trim(row[0]);
        let value = trim(row[1]);
        if label == "Company Name"@ || label == "Company"@ {
            DetailView { company: value, ..d }
        } else if label == "IPO Date"@ {
            match period_in(value, today) {
                Some((o, c)) => DetailView { open_date: Some(o), close_date: Some(c), ..d },
                None => d,
            }
        } else if label == "Listing Date"@ {
            DetailView {
                listing_date: match day_month_year(value) {
                    Some(x) => Some(x),
                    None => month_day(value, today.year as int),
                },
                listing_date_tentative: contains_seq(value, "(T)"@) || contains_seq(
                    value,
                    "Tentative"@,
                ),
                ..d
            }
        } else if label == "Price Band"@ {
            match band_in(value) {
                Some((l, h)) => DetailView { price_band_low: Some(l), price_band_high: Some(h), ..d },
                None => d,
            }
        } else if label == "Issue Price"@ {
            DetailView { final_price: rupees_in(value), ..d }
        } else if label == "Face Value"@ {
            DetailView { face_value: rupees_in(value), ..d }
        } else if label == "Lot Size"@ {
            DetailView { lot_size: int_in(value), ..d }
        } else if label == "Sale Type"@ {
            DetailView { offer_type: Some(value), ..d }
        } else if label == "Issue Type"@ {
            DetailView { issue_type: Some(value), ..d }
        } else if label == "Listing At"@ {
            DetailView { listing_at: Some(value), ..d }
        } else {
            d
        }
    }
}

/// The key-facts rows applied in order.
pub open spec fn key_facts(d: DetailView, rows: Seq<Seq<Seq<char>>>, today: Date) -> DetailView
    decreases rows.len(),
{
    if rows.len() == 0 {
        d
    } else {
        key_fact(key_facts(d, rows.drop_last(), today), rows.last(), today)
    }
}

/// What one issue-split row sets.
pub open spec fn split_fact(d: DetailView, row: Seq<Seq<char>>) -> DetailView {
    if row.len() < 2 {
        d
    } else {
        let label = trim(row[0]);
        let value = trim(row[1]);
        if label == "Total Issue Size"@ {
            DetailView { shares_offered: int_in(value), ..d }
        } else if label == "Fresh Issue"@ {
            DetailView { fresh_issue_shares: int_in(value), ..d }
        } else if label == "Offer for Sale"@ {
            DetailView { ofs_shares: int_in(value), ..d }
        } else {
            d
        }
    }
}

/// The issue-split rows applied in order.
pub open spec fn issue_split(d: DetailView, rows: Seq<Seq<Seq<char>>>) -> DetailView
    decreases rows.len(),
{
    if rows.len() == 0 {
        d
    } else {
        split_fact(issue_split(d, rows.drop_last()), rows.last())
    }
}

/// The subscription row a table row gives: a known category in the first
/// cell and at least four cells.
pub open spec fn subscription_row(row: Seq<Seq<char>>) -> Option<
    (SubCategory, Seq<char>, Option<i64>, Option<i64>),
> {
    if row.len() < 4 {
        None
    } else {
        match category_from_label(row[0]) {
            Some(c) => Some((c, row[1], int_in(row[2]), int_in(row[3]))),
            None => None,
        }
    }
}

/// A final-subscription row (Category | Subscription (times) | Shares
/// Offered | Shares bid for) reads its counts from their own cells: with
/// the shares offered written in the third cell and the shares bid for in
/// the fourth, the row carries exactly those two counts, and the times
/// cell as it stands.
pub proof fn lemma_subscription_row_counts(row: Seq<Seq<char>>, offered: i64, bid: i64)
    requires
        row.len() >= 4,
        category_from_label(row[0]) is Some,
        offered >= 0,
        bid >= 0,
        row[2] == crate::format::indian_grouped(crate::format::int_text(offered as int)),
        row[3] == crate::format::indian_grouped(crate::format::int_text(bid as int)),
    ensures
        subscription_row(row) == Some(
            (category_from_label(row[0])->0, row[1], Some(offered), Some(bid)),
        ),
{
    crate::parse_util::lemma_grouped_integer_reads_back(offered);
    crate::parse_util::lemma_grouped_integer_reads_back(bid);
}

/// The shares bid for depend on the fourth cell alone and the shares
/// offered on the third alone: rows that differ only in the third cell
/// bid the same, rows that differ only in the fourth offer the same.
pub proof fn lemma_subscription_row_cells_independent(row: Seq<Seq<char>>, cell: Seq<char>)
    requires
        row.len() >= 4,
    ensures
        subscription_row(row) matches Some(a) ==> subscription_row(row.update(2, cell)) matches Some(
            b,
        ) && b.3 == a.3 && b.2 == int_in(cell),
        subscription_row(row) matches Some(a) ==> subscription_row(row.update(3, cell)) matches Some(
            b,
        ) && b.2 == a.2 && b.3 == int_in(cell),
{
    assert(row.update(2, cell)[0] == row[0]);
    assert(row.update(2, cell)[3] == row[3]);
    assert(row.update(3, cell)[0] == row[0]);
    assert(row.update(3, cell)[2] == row[2]);
}

/// The subscription rows of a table's body rows, in order.
pub open spec fn subscription_rows(rows: Seq<Seq<Seq<char>>>) -> Seq<
    (SubCategory, Seq<char>, Option<i64>, Option<i64>),
>
    decreases rows.len(),
{
    if rows.len() == 0 {
        Seq::empty()
    } else {
        let p = subscription_rows(rows.drop_last());
        match subscription_row(rows.last()) {
            Some(r) => p.push(r),
            None => p,
        }
    }
}

/// A table's rows with every cell trimmed, rows without cells dropped.
pub open spec fn trimmed_rows(t: Seq<Seq<Seq<char>>>) -> Seq<Seq<Seq<char>>>
    decreases t.len(),
{
    if t.len() == 0 {
        Seq::empty()
    } else {
        let p = trimmed_rows(t.drop_last());
        if t.last().len() == 0 {
            p
        } else {
            p.push(t.last().map_values(|c: Seq<char>| trim(c)))
        }
    }
}

/// What one table of the detail page sets, recognised by its first cell:
/// "IPO Date" (key facts), "Total Issue Size" (issue split), or "Category"
/// with a second header cell mentioning "Subscription" (final subscription).
pub open spec fn detail_table(d: DetailView, t: Seq<Seq<Seq<char>>>, today: Date) -> DetailView {
    let rows = trimmed_rows(t);
    if rows.len() == 0 {
        d
    } else {
        let header = rows[0][0];
        if header == "IPO Date"@ {
            key_facts(d, rows, today)
        } else if header == "Total Issue Size"@ {
            issue_split(d, rows)
        } else if header == "Category"@ && rows[0].len() > 1 && contains_seq(
            rows[0][1],
            "Subscription"@,
        ) {
            DetailView { final_subscription: subscription_rows(rows.drop_first()), ..d }
        } else {
            d
        }
    }
}

/// The tables applied in order.
pub open spec fn detail_tables(d: DetailView, ts: Seq<Seq<Seq<Seq<char>>>>, today: Date) -> DetailView
    decreases ts.len(),
{
    if ts.len() == 0 {
        d
    } else {
        detail_table(detail_tables(d, ts.drop_last(), today), ts.last(), today)
    }
}

/// The pieces joined back together.
pub open spec fn concat_all(pieces: Seq<Seq<char>>) -> Seq<char>
    decreases pieces.len(),
{
    if pieces.len() == 0 {
        Seq::empty()
    } else {
        concat_all(pieces.drop_last()) + pieces.last()
    }
}

/// The company name an `h1` heading gives: "IPO Details" removed,
/// whitespace collapsed.
pub open spec fn heading_company(h1: Seq<char>) -> Seq<char> {
    trim(collapse_ws(concat_all(split_on(h1, "IPO Details"@))))
}

/// A detail page's facts from its first heading, its tables and its raw
/// text, with `today` for year-less dates.
pub open spec fn detail_of(
    h1: Option<Seq<char>>,
    ts: Seq<Seq<Seq<Seq<char>>>>,
    html: Seq<char>,
    today: Date,
) -> DetailView {
    let d0 = match h1 {
        Some(t) => DetailView { company: heading_company(t), ..empty_detail() },
        None => empty_detail(),
    };
    let d1 = detail_tables(d0, ts, today);
    if d1.symbol is None {
        match embedded_symbol_from(html, 0) {
            Some(sym) => DetailView { symbol: Some(sym), ..d1 },
            None => d1,
        }
    } else {
        d1
    }
}

pub open spec fn row_view(r: Vec<Vec<char>>) -> Seq<Seq<char>> {
    r@.map_values(|c: Vec<char>| c@)
}

pub open spec fn rows_view(v: Seq<Vec<Vec<char>>>) -> Seq<Seq<Seq<char>>> {
    v.map_values(|r: Vec<Vec<char>>| row_view(r))
}

fn apply_key_fact(d: &mut ChittorgarhDetail, row: &Vec<Vec<char>>, today: Date)
    ensures
        final(d).view() == key_fact(old(d).view(), row_view(*row), today),
{
    if row.len() < 2 {
        return;
    }
    let ghost g = row_view(*row);
    assert(g[0] == row@[0]@ && g[1] == row@[1]@);
    let label = trim_vec(&row[0]);
    let value = trim_vec(&row[1]);
    if vec_eq_str(&label, "Company Name") || vec_eq_str(&label, "Company") {
        d.company = string_from(&value);
    } else if vec_eq_str(&label, "IPO Date") {
        match parse_period_chars(&value, today) {
            Some((o, c)) => {
                d.open_date = Some(o);
                d.close_date = Some(c);
            },
            None => {},
        }
    } else if vec_eq_str(&label, "Listing Date") {
        d.listing_date = match parse_day_month_year_chars(&value) {
            Some(x) => Some(x),
            None => parse_month_day_in(&value, today.year),
        };
        d.listing_date_tentative = contains_str(&value, "(T)") || contains_str(&value, "Tentative");
    } else if vec_eq_str(&label, "Price Band") {
        match parse_band_chars(&value) {
            Some((l, h)) => {
                d.price_band_low = Some(l);
                d.price_band_high = Some(h);
            },
            None => {},
        }
    } else if vec_eq_str(&label, "Issue Price") {
        d.final_price = parse_rupees_chars(&value);
    } else if vec_eq_str(&label, "Face Value") {
        d.face_value = parse_rupees_chars(&value);
    } else if vec_eq_str(&label, "Lot Size") {
        d.lot_size = parse_int_chars(&value);
    } else if vec_eq_str(&label, "Sale Type") {
        d.offer_type = Some(string_from(&value));
    } else if vec_eq_str(&label, "Issue Type") {
        d.issue_type = Some(string_from(&value));
    } else if vec_eq_str(&label, "Listing At") {
        d.listing_at = Some(string_from(&value));
    }
}

fn apply_split_fact(d: &mut ChittorgarhDetail, row: &Vec<Vec<char>>)
    ensures
        final(d).view() == split_fact(old(d).view(), row_view(*row)),
{
    if row.len() < 2 {
        return;
    }
    let ghost g = row_view(*row);
    assert(g[0] == row@[0]@ && g[1] == row@[1]@);
    let label = trim_vec(&row[0]);
    let value = trim_vec(&row[1]);
    if vec_eq_str(&label, "Total Issue Size") {
        d.shares_offered = parse_int_chars(&value);
    } else if vec_eq_str(&label, "Fresh Issue") {
        d.fresh_issue_shares = parse_int_chars(&value);
    } else if vec_eq_str(&label, "Offer for Sale") {
        d.ofs_shares = parse_int_chars(&value);
    }
}

fn subscription_row_of(row: &Vec<Vec<char>>) -> (r: Option<SubscriptionRow>)
    ensures
        match r {
            Some(x) => subscription_row(row_view(*row)) == Some(x.view()),
            None => subscription_row(row_view(*row)) is None,
        },
{
    if row.len() < 4 {
        return None;
    }
    let ghost g = row_view(*row);
    assert(g[0] == row@[0]@ && g[1] == row@[1]@ && g[2] == row@[2]@ && g[3] == row@[3]@);
    match SubCategory::parse_chars(&row[0]) {
        Some(c) => Some(
            SubscriptionRow {
                category: c,
                times_text: string_from(&row[1]),
                offered_shares: parse_int_chars(&row[2]),
                bid_shares: parse_int_chars(&row[3]),
            },
        ),
        None => None,
    }
}

/// Parse the detail page's final subscription table (header row first)
/// into rows. Category mapping: "QIB (Ex Anchor)" → qib, "NII" → nii,
/// "Retail" → retail, "Total" → total; bNII/sNII/Employee rows are skipped.
fn parse_subscription_table(rows: &Vec<Vec<Vec<char>>>) -> (r: Vec<SubscriptionRow>)
    requires
        rows.len() > 0,
    ensures
        r@.map_values(|x: SubscriptionRow| x.view()) == subscription_rows(rows_view(rows@).drop_first()),
{
    let ghost g = rows_view(rows@).drop_first();
    let mut r: Vec<SubscriptionRow> = Vec::new();
    let mut i: usize = 1;
    while i < rows.len()
        invariant
            1 <= i <= rows.len(),
            g == rows_view(rows@).drop_first(),
            r@.map_values(|x: SubscriptionRow| x.view()) == subscription_rows(g.take(i - 1)),
        decreases rows.len() - i,
    {
        assert(g.take(i as int).drop_last() =~= g.take(i - 1));
        assert(g.take(i as int).last() == row_view(rows@[i as int]));
        match subscription_row_of(&rows[i]) {
            Some(x) => {
                let ghost before = r@;
                r.push(x);
                assert(r@.map_values(|x: SubscriptionRow| x.view()) =~= before.map_values(
                    |x: SubscriptionRow| x.view(),
                ).push(x.view()));
            },
            None => {},
        }
        i = i + 1;
    }
    assert(g.take(rows.len() - 1) =~= g);
    r
}

pub(crate) fn trimmed_table(t: &Vec<Vec<String>>) -> (r: Vec<Vec<Vec<char>>>)
    ensures
        rows_view(r@) == trimmed_rows(t@.map_values(|row: Vec<String>| texts(row@))),
{
    let ghost g = t@.map_values(|row: Vec<String>| texts(row@));
    let mut r: Vec<Vec<Vec<char>>> = Vec::new();
    let mut i: usize = 0;
    while i < t.len()
        invariant
            i <= t.len(),
            g == t@.map_values(|row: Vec<String>| texts(row@)),
            rows_view(r@) == trimmed_rows(g.take(i as int)),
        decreases t.len() - i,
    {
        assert(g.take(i + 1).drop_last() =~= g.take(i as int));
        assert(g.take(i + 1).last() == texts(t@[i as int]@));
        let row = &t[i];
        if row.len() > 0 {
            let mut cells: Vec<Vec<char>> = Vec::new();
            let mut k: usize = 0;
            while k < row.len()
                invariant
                    k <= row.len(),
                    row_view(cells) == texts(row@).take(k as int).map_values(|c: Seq<char>| trim(c)),
                decreases row.len() - k,
            {
                let c = trim_vec(&chars_of(row[k].as_str()));
                assert(texts(row@)[k as int] == row@[k as int]@);
                let ghost before = cells;
                cells.push(c);
                assert(row_view(cells) =~= row_view(before).push(c@));
                assert(texts(row@).take(k + 1).map_values(|c: Seq<char>| trim(c)) =~= texts(row@).take(
                    k as int,
                ).map_values(|c: Seq<char>| trim(c)).push(trim(texts(row@)[k as int])));
                assert(row_view(cells) =~= texts(row@).take(k + 1).map_values(
                    |c: Seq<char>| trim(c),
                ));
                k = k + 1;
            }
            assert(texts(row@).take(row.len() as int) =~= texts(row@));
            let ghost before = r@;
            r.push(cells);
            assert(rows_view(r@) =~= rows_view(before).push(row_view(cells)));
        }
        i = i + 1;
    }
    assert(g.take(t.len() as int) =~= g);
    r
}

fn apply_table(d: &mut ChittorgarhDetail, t: &Vec<Vec<String>>, today: Date)
    ensures
        final(d).view() == detail_table(
            old(d).view(),
            t@.map_values(|row: Vec<String>| texts(row@)),
            today,
        ),
{
    let rows = trimmed_table(t);
    let ghost g = rows_view(rows@);
    if rows.len() == 0 {
        return;
    }
    proof {
        lemma_trimmed_rows_nonempty(t@.map_values(|row: Vec<String>| texts(row@)));
        assert(g[0] == row_view(rows@[0]));
    }
    assert(rows@[0].len() > 0);
    assert(g[0][0] == rows@[0]@[0]@);
    let header = &rows[0][0];
    if vec_eq_str(header, "IPO Date") {
        let mut i: usize = 0;
        let ghost start = d.view();
        while i < rows.len()
            invariant
                i <= rows.len(),
                g == rows_view(rows@),
                d.view() == key_facts(start, g.take(i as int), today),
            decreases rows.len() - i,
        {
            assert(g.take(i + 1).drop_last() =~= g.take(i as int));
            assert(g.take(i + 1).last() == row_view(rows@[i as int]));
            apply_key_fact(d, &rows[i], today);
            i = i + 1;
        }
        assert(g.take(rows.len() as int) =~= g);
    } else if vec_eq_str(header, "Total Issue Size") {
        let mut i: usize = 0;
        let ghost start = d.view();
        while i < rows.len()
            invariant
                i <= rows.len(),
                g == rows_view(rows@),
                d.view() == issue_split(start, g.take(i as int)),
            decreases rows.len() - i,
        {
            assert(g.take(i + 1).drop_last() =~= g.take(i as int));
            assert(g.take(i + 1).last() == row_view(rows@[i as int]));
            apply_split_fact(d, &rows[i]);
            i = i + 1;
        }
        assert(g.take(rows.len() as int) =~= g);
    } else if vec_eq_str(header, "Category") && rows[0].len() > 1 && contains_vec_cells(&rows[0], 1, "Subscription") {
        d.final_subscription = parse_subscription_table(&rows);
    }
}

fn contains_vec_cells(row: &Vec<Vec<char>>, k: usize, pat: &str) -> (r: bool)
    requires
        k < row.len(),
    ensures
        r == contains_seq(row@[k as int]@, pat@),
{
    contains_str(&row[k], pat)
}

proof fn lemma_trimmed_rows_nonempty(t: Seq<Seq<Seq<char>>>)
    ensures
        forall|i: int| 0 <= i < trimmed_rows(t).len() ==> #[trigger] trimmed_rows(t)[i].len() > 0,
    decreases t.len(),
{
    if t.len() > 0 {
        lemma_trimmed_rows_nonempty(t.drop_last());
        let p = trimmed_rows(t.drop_last());
        if t.last().len() > 0 {
            let x = t.last().map_values(|c: Seq<char>| trim(c));
            assert(x.len() > 0);
            assert(trimmed_rows(t) == p.push(x));
            assert forall|i: int| 0 <= i < p.push(x).len() implies #[trigger] p.push(x)[i].len()
                > 0 by {
                if i < p.len() {
                    assert(p.push(x)[i] == p[i]);
                }
            }
        }
    }
}

fn concat_pieces(pieces: &Vec<Vec<char>>) -> (r: Vec<char>)
    ensures
        r@ == concat_all(pieces@.map_values(|p: Vec<char>| p@)),
{
    let ghost g = pieces@.map_values(|p: Vec<char>| p@);
    let mut r: Vec<char> = Vec::new();
    let mut i: usize = 0;
    while i < pieces.len()
        invariant
            i <= pieces.len(),
            g == pieces@.map_values(|p: Vec<char>| p@),
            r@ == concat_all(g.take(i as int)),
        decreases pieces.len() - i,
    {
        assert(g.take(i + 1).drop_last() =~= g.take(i as int));
        assert(g.take(i + 1).last() == pieces@[i as int]@);
        let p = &pieces[i];
        let mut k: usize = 0;
        let ghost before = r@;
        while k < p.len()
            invariant
                k <= p.len(),
                r@ == before + p@.take(k as int),
            decreases p.len() - k,
        {
            r.push(p[k]);
            k = k + 1;
            assert(r@ =~= before + p@.take(k as int));
        }
        assert(p@.take(p.len() as int) =~= p@);
        i = i + 1;
    }
    assert(g.take(pieces.len() as int) =~= g);
    r
}

/// The detail a page gives from its first heading, its tables (each as
/// rows of cell texts) and its raw text, with `today` for year-less dates.
pub fn detail_from_page(
    h1: Option<String>,
    ts: &Vec<Vec<Vec<String>>>,
    html: &str,
    today: Date,
) -> (d: ChittorgarhDetail)
    ensures
        d.view() == detail_of(opt_text(h1), tables_text(ts@), html@, today),
{
    let mut detail = ChittorgarhDetail::empty();
    match h1 {
        Some(text) => {
            let t = chars_of(text.as_str());
            let pat = chars_of("IPO Details");
            let pieces = split_on_vec(&t, &pat);
            assert(pieces@.map_values(|p: Vec<char>| p@) =~= split_on(t@, "IPO Details"@));
            let joined = concat_pieces(&pieces);
            let collapsed = collapse_ws_vec(&joined);
            let trimmed = trim_vec(&collapsed);
            detail.company = string_from(&trimmed);
        },
        None => {},
    }
    let ghost g = tables_text(ts@);
    let ghost start = detail.view();
    let mut i: usize = 0;
    while i < ts.len()
        invariant
            i <= ts.len(),
            g == tables_text(ts@),
            detail.view() == detail_tables(start, g.take(i as int), today),
        decreases ts.len() - i,
    {
        assert(g.take(i + 1).drop_last() =~= g.take(i as int));
        assert(g.take(i + 1).last() == ts@[i as int]@.map_values(|row: Vec<String>| texts(row@)));
        apply_table(&mut detail, &ts[i], today);
        i = i + 1;
    }
    assert(g.take(ts.len() as int) =~= g);
    if detail.symbol.is_none() {
        match extract_embedded_symbol(html) {
            Some(sym) => {
                detail.symbol = Some(sym);
            },
            None => {},
        }
    }
    detail
}

/// Parse a detail page's key-facts, issue-split and subscription tables,
/// with `today` for year-less dates.
pub fn parse_detail_at(html: &str, today: Date) -> (r: Result<ChittorgarhDetail, crate::error::Error>)
    ensures
        r matches Ok(d) && d.view() == detail_of(
            crate::html::document_first_h1(html@),
            crate::html::document_tables(html@),
            html@,
            today,
        ),
{
    let h1 = first_h1(html);
    let ts = tables(html);
    Ok(detail_from_page(h1, &ts, html, today))
}

/// Parse a detail page's key-facts + issue-split tables; year-less dates
/// take the current year in Indian Standard Time.
pub fn parse_detail(html: &str) -> (r: Result<ChittorgarhDetail, crate::error::Error>)
    ensures
        exists|today: Date| today.wf() && (r matches Ok(d) && d.view() == detail_of(
            crate::html::document_first_h1(html@),
            crate::html::document_tables(html@),
            html@,
            today,
        )),
{
    let now = crate::date::now_ist();
    parse_detail_at(html, now.date)
}

/// The record a detail page gives for `url`: its facts copied over (the
/// listing venue as exchange), source "chittorgarh", the status its dates
/// derive for `today`, every other field empty.
pub open spec fn detail_record(d: DetailView, url: Seq<char>, today: Date, ipo: Ipo) -> bool {
    &&& ipo.id is None
    &&& ipo.company_name@ == d.company
    &&& ipo.normalized_name@ == normalized_name(d.company)
    &&& opt_text(ipo.detail_url) == Some(url)
    &&& opt_text(ipo.symbol) == d.symbol
    &&& opt_text(ipo.exchange) == d.listing_at
    &&& ipo.sector is None
    &&& ipo.open_date == d.open_date
    &&& ipo.close_date == d.close_date
    &&& ipo.listing_date == d.listing_date
    &&& ipo.listing_date_tentative == d.listing_date_tentative
    &&& ipo.price_band_low == d.price_band_low
    &&& ipo.price_band_high == d.price_band_high
    &&& ipo.final_price == d.final_price
    &&& ipo.face_value == d.face_value
    &&& ipo.lot_size == d.lot_size
    &&& ipo.lot_multiples is None
    &&& ipo.issue_size_cr is None
    &&& opt_text(ipo.offer_type) == d.offer_type
    &&& opt_text(ipo.issue_type) == d.issue_type
    &&& ipo.shares_offered == d.shares_offered
    &&& ipo.fresh_issue_shares == d.fresh_issue_shares
    &&& ipo.ofs_shares == d.ofs_shares
    &&& ipo.allotment_date is None
    &&& ipo.drhp_url is None
    &&& ipo.rhp_url is None
    &&& ipo.source@ == "chittorgarh"@
    &&& ipo.ingested_at == ipo.updated_at
    &&& ipo.ingested_at.wf()
    &&& ipo.status == derived_status(d.open_date, d.close_date, d.listing_date, today)
}

fn clone_opt(o: &Option<String>) -> (r: Option<String>)
    ensures
        opt_text(r) == opt_text(*o),
{
    match o {
        Some(s) => Some(s.clone()),
        None => None,
    }
}

/// Convert a parsed detail page into an IPO record.
pub fn detail_to_ipo(detail: &ChittorgarhDetail, detail_url: &str, today: Date) -> (ipo: Ipo)
    ensures
        detail_record(detail.view(), detail_url@, today, ipo),
{
    let mut ipo = Ipo::new(detail.company.as_str(), "chittorgarh");
    ipo.detail_url = Some(detail_url.to_owned());
    ipo.symbol = clone_opt(&detail.symbol);
    ipo.exchange = clone_opt(&detail.listing_at);
    ipo.open_date = detail.open_date;
    ipo.close_date = detail.close_date;
    ipo.listing_date = detail.listing_date;
    ipo.listing_date_tentative = detail.listing_date_tentative;
    ipo.price_band_low = detail.price_band_low;
    ipo.price_band_high = detail.price_band_high;
    ipo.final_price = detail.final_price;
    ipo.face_value = detail.face_value;
    ipo.lot_size = detail.lot_size;
    ipo.offer_type = clone_opt(&detail.offer_type);
    ipo.issue_type = clone_opt(&detail.issue_type);
    ipo.shares_offered = detail.shares_offered;
    ipo.fresh_issue_shares = detail.fresh_issue_shares;
    ipo.ofs_shares = detail.ofs_shares;
    ipo.derive_status(today);
    ipo
}

/// The site every relative detail link is resolved against.
pub open spec fn base_url() -> Seq<char> {
    "https://www.chittorgarh.com"@
}

/// The absolute URL of a dashboard detail link: kept when it already
/// starts with "http", else resolved against the site.
pub open spec fn detail_page_url_of(link: Seq<char>) -> Seq<char> {
    if crate::text::starts_with(link, "http"@) {
        link
    } else {
        base_url() + link
    }
}

/// The absolute URL of a dashboard detail link.
pub fn detail_page_url(link: &str) -> (r: String)
    ensures
        r@ == detail_page_url_of(link@),
{
    let v = chars_of(link);
    if crate::text::starts_with_vec(&v, &chars_of("http")) {
        link.to_owned()
    } else {
        let mut out = chars_of("https://www.chittorgarh.com");
        crate::format::append(&mut out, &v);
        string_from(&out)
    }
}

/// The day a detail page's final subscription rows are filed under: the
/// IPO's close, else `today`.
pub fn final_subscription_day(ipo: &Ipo, today: Date) -> (r: Date)
    ensures
        r == match ipo.close_date {
            Some(c) => c,
            None => today,
        },
{
    match ipo.close_date {
        Some(c) => c,
        None => today,
    }
}

} // verus!

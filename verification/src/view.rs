//! What the IPO list and the dossier show: the text of every cell, computed
//! from the records (the desktop shell only lays it out).

use vstd::prelude::*;

use crate::date::Date;
use crate::decimal::{rounded_dp, Decimal};
use crate::format::{
    append, date, date_text, decimal_text, indian_grouped, int_text, integer, rupees, rupees_text,
    shares, times,
};
use crate::text::{chars_of, string_from};
use crate::types::{category_name, Ipo, IpoStatus, SubCategory, SubscriptionSnapshot};
use crate::sorting::{DetailTab, SortCol, SortDir};
use crate::store::StatusCounts;

verus! {

// ---------------------------------------------------------------------------
// Cell texts
// ---------------------------------------------------------------------------

/// The placeholder for a missing value.
pub open spec fn dash() -> Seq<char> {
    seq!['—']
}

/// What `format::times` writes.
pub open spec fn times_text(d: Decimal) -> Seq<char> {
    decimal_text(rounded_dp(d, 2)) + seq!['×']
}

/// What `format::shares` writes.
pub open spec fn shares_text(n: i64) -> Seq<char> {
    indian_grouped(int_text(n as int))
}

/// An amount in rupees, or the placeholder.
pub open spec fn rupees_or_dash(d: Option<Decimal>) -> Seq<char> {
    match d {
        Some(x) => rupees_text(x),
        None => dash(),
    }
}

/// A share count, or the placeholder.
pub open spec fn shares_or_dash(n: Option<i64>) -> Seq<char> {
    match n {
        Some(x) => shares_text(x),
        None => dash(),
    }
}

/// A times-subscribed figure, or the placeholder.
pub open spec fn times_or_dash(d: Option<Decimal>) -> Seq<char> {
    match d {
        Some(x) => times_text(x),
        None => dash(),
    }
}

/// The price band: "low – high", the low alone, or the placeholder.
pub open spec fn band_cell(low: Option<Decimal>, high: Option<Decimal>) -> Seq<char> {
    match (low, high) {
        (Some(l), Some(h)) => rupees_text(l) + seq![' ', '–', ' '] + rupees_text(h),
        (Some(l), None) => rupees_text(l),
        _ => dash(),
    }
}

/// The issue window: "open → close", the open day alone, or the
/// placeholder.
pub open spec fn window_cell(open: Option<Date>, close: Option<Date>) -> Seq<char> {
    match (open, close) {
        (Some(o), Some(c)) => date_text(o) + seq![' ', '→', ' '] + date_text(c),
        (Some(o), None) => date_text(o),
        _ => dash(),
    }
}

/// The lot size as a plain integer, or the placeholder.
pub open spec fn lot_cell(lot: Option<i64>) -> Seq<char> {
    match lot {
        Some(l) => int_text(l as int),
        None => dash(),
    }
}

/// Position of the first snapshot of category `c` at or after `i`.
pub open spec fn first_of_category(s: Seq<SubscriptionSnapshot>, c: SubCategory, i: int) -> Option<int>
    decreases s.len() - i,
{
    if i < 0 || i >= s.len() {
        None
    } else if s[i].category == c {
        Some(i)
    } else {
        first_of_category(s, c, i + 1)
    }
}

/// The times subscribed of the first Total row, if it has one.
pub open spec fn total_times(latest: Seq<SubscriptionSnapshot>) -> Option<Decimal> {
    match first_of_category(latest, SubCategory::Total, 0) {
        Some(i) => latest[i].times_subscribed,
        None => None,
    }
}

fn dash_chars() -> (r: Vec<char>)
    ensures
        r@ == dash(),
{
    let mut v: Vec<char> = Vec::new();
    v.push('—');
    assert(v@ =~= dash());
    v
}

fn push_all(out: &mut Vec<char>, s: &String)
    ensures
        final(out)@ == old(out)@ + s@,
{
    let v = chars_of(s.as_str());
    append(out, &v);
}

fn rupees_or_dash_of(d: Option<Decimal>) -> (r: String)
    requires
        d matches Some(x) ==> x.wf(),
    ensures
        r@ == rupees_or_dash(d),
{
    match d {
        Some(x) => rupees(x),
        None => string_from(&dash_chars()),
    }
}

fn shares_or_dash_of(n: Option<i64>) -> (r: String)
    ensures
        r@ == shares_or_dash(n),
{
    match n {
        Some(x) => shares(x),
        None => string_from(&dash_chars()),
    }
}

fn times_or_dash_of(d: Option<Decimal>) -> (r: String)
    requires
        d matches Some(x) ==> x.wf(),
    ensures
        r@ == times_or_dash(d),
{
    match d {
        Some(x) => times(x),
        None => string_from(&dash_chars()),
    }
}

/// The price band cell.
pub fn band_of(low: Option<Decimal>, high: Option<Decimal>) -> (r: String)
    requires
        low matches Some(x) ==> x.wf(),
        high matches Some(x) ==> x.wf(),
    ensures
        r@ == band_cell(low, high),
{
    match (low, high) {
        (Some(l), Some(h)) => {
            let mut v: Vec<char> = Vec::new();
            push_all(&mut v, &rupees(l));
            v.push(' ');
            v.push('–');
            v.push(' ');
            push_all(&mut v, &rupees(h));
            assert(v@ =~= band_cell(low, high));
            string_from(&v)
        },
        (Some(l), None) => rupees(l),
        _ => string_from(&dash_chars()),
    }
}

/// The issue window cell.
pub fn window_of(open: Option<Date>, close: Option<Date>) -> (r: String)
    requires
        open matches Some(x) ==> x.wf(),
        close matches Some(x) ==> x.wf(),
    ensures
        r@ == window_cell(open, close),
{
    match (open, close) {
        (Some(o), Some(c)) => {
            let mut v: Vec<char> = Vec::new();
            push_all(&mut v, &date(o));
            v.push(' ');
            v.push('→');
            v.push(' ');
            push_all(&mut v, &date(c));
            assert(v@ =~= window_cell(open, close));
            string_from(&v)
        },
        (Some(o), None) => date(o),
        _ => string_from(&dash_chars()),
    }
}

fn total_times_of(latest: &Vec<SubscriptionSnapshot>) -> (r: Option<Decimal>)
    ensures
        r == total_times(latest@),
{
    let mut i: usize = 0;
    while i < latest.len()
        invariant
            i <= latest.len(),
            first_of_category(latest@, SubCategory::Total, 0) == first_of_category(
                latest@,
                SubCategory::Total,
                i as int,
            ),
        decreases latest.len() - i,
    {
        if latest[i].category == SubCategory::Total {
            return latest[i].times_subscribed;
        }
        i = i + 1;
    }
    None
}

// ---------------------------------------------------------------------------
// The IPO list
// ---------------------------------------------------------------------------

/// The cells of one row of the IPO list.
pub struct ListRow {
    pub band: String,
    pub lot: String,
    pub size: String,
    pub subscription: String,
    pub window: String,
}

/// The cells of one expanded per-category line under a list row.
pub struct SubRow {
    pub category: String,
    pub times: String,
    pub offered: String,
    pub bid: String,
}

/// The upper-cased name of a category.
pub open spec fn category_label(c: SubCategory) -> Seq<char> {
    match c {
        SubCategory::Qib => seq!['Q', 'I', 'B'],
        SubCategory::Nii => seq!['N', 'I', 'I'],
        SubCategory::Retail => seq!['R', 'E', 'T', 'A', 'I', 'L'],
        SubCategory::Total => seq!['T', 'O', 'T', 'A', 'L'],
    }
}

/// The row of the list for `ipo`, given the latest snapshot of each of its
/// categories: band, lot, issue size, the Total times subscribed and the
/// issue window, each with the placeholder when missing.
pub fn list_row(ipo: &Ipo, latest: &Vec<SubscriptionSnapshot>) -> (r: ListRow)
    requires
        ipo.wf(),
        forall|i: int| 0 <= i < latest.len() ==> (#[trigger] latest@[i]).wf(),
    ensures
        r.band@ == band_cell(ipo.price_band_low, ipo.price_band_high),
        r.lot@ == lot_cell(ipo.lot_size),
        r.size@ == rupees_or_dash(ipo.issue_size_cr),
        r.subscription@ == times_or_dash(total_times(latest@)),
        r.window@ == window_cell(ipo.open_date, ipo.close_date),
{
    let lot = match ipo.lot_size {
        Some(l) => string_from(&crate::format::int_text_of(l)),
        None => string_from(&dash_chars()),
    };
    let total = total_times_of(latest);
    proof {
        if let Some(i) = first_of_category(latest@, SubCategory::Total, 0) {
            lemma_first_of_category_in_range(latest@, SubCategory::Total, 0);
            assert(latest@[i].wf());
        }
    }
    ListRow {
        band: band_of(ipo.price_band_low, ipo.price_band_high),
        lot,
        size: rupees_or_dash_of(ipo.issue_size_cr),
        subscription: times_or_dash_of(total),
        window: window_of(ipo.open_date, ipo.close_date),
    }
}

proof fn lemma_first_of_category_in_range(s: Seq<SubscriptionSnapshot>, c: SubCategory, i: int)
    ensures
        first_of_category(s, c, i) matches Some(k) ==> i <= k < s.len() && s[k].category == c,
    decreases s.len() - i,
{
    if 0 <= i < s.len() && s[i].category != c {
        lemma_first_of_category_in_range(s, c, i + 1);
    }
}

fn category_label_of(c: SubCategory) -> (r: String)
    ensures
        r@ == category_label(c),
{
    let mut v: Vec<char> = Vec::new();
    match c {
        SubCategory::Qib => {
            v.push('Q');
            v.push('I');
            v.push('B');
        },
        SubCategory::Nii => {
            v.push('N');
            v.push('I');
            v.push('I');
        },
        SubCategory::Retail => {
            v.push('R');
            v.push('E');
            v.push('T');
            v.push('A');
            v.push('I');
            v.push('L');
        },
        SubCategory::Total => {
            v.push('T');
            v.push('O');
            v.push('T');
            v.push('A');
            v.push('L');
        },
    }
    assert(v@ =~= category_label(c));
    string_from(&v)
}

/// The expanded line for one snapshot: its category upper-cased, the times
/// subscribed, "offered N" and "bid N" (placeholders where missing).
pub fn sub_row(s: &SubscriptionSnapshot) -> (r: SubRow)
    requires
        s.wf(),
    ensures
        r.category@ == category_label(s.category),
        r.times@ == times_or_dash(s.times_subscribed),
        r.offered@ == seq!['o', 'f', 'f', 'e', 'r', 'e', 'd', ' '] + shares_or_dash(s.offered_shares),
        r.bid@ == seq!['b', 'i', 'd', ' '] + shares_or_dash(s.bid_shares),
{
    let mut offered: Vec<char> = Vec::new();
    offered.push('o');
    offered.push('f');
    offered.push('f');
    offered.push('e');
    offered.push('r');
    offered.push('e');
    offered.push('d');
    offered.push(' ');
    push_all(&mut offered, &shares_or_dash_of(s.offered_shares));
    let mut bid: Vec<char> = Vec::new();
    bid.push('b');
    bid.push('i');
    bid.push('d');
    bid.push(' ');
    push_all(&mut bid, &shares_or_dash_of(s.bid_shares));
    assert(offered@ =~= seq!['o', 'f', 'f', 'e', 'r', 'e', 'd', ' '] + shares_or_dash(s.offered_shares));
    assert(bid@ =~= seq!['b', 'i', 'd', ' '] + shares_or_dash(s.bid_shares));
    SubRow {
        category: category_label_of(s.category),
        times: times_or_dash_of(s.times_subscribed),
        offered: string_from(&offered),
        bid: string_from(&bid),
    }
}

/// A row's disclosure arrow: pointing down while its category breakdown is
/// shown, right otherwise.
pub fn chevron(expanded: bool) -> (r: &'static str)
    ensures
        r@ == (if expanded { "▾"@ } else { "▸"@ }),
{
    if expanded {
        "▾"
    } else {
        "▸"
    }
}

/// Which row shows its breakdown after a click on the arrow of `row`: none
/// when that row was the one shown, else that row.
pub fn expanded_after_click(expanded: Option<i64>, row: Option<i64>) -> (r: Option<i64>)
    ensures
        r == (if expanded == row { None } else { row }),
{
    if expanded == row {
        None
    } else {
        row
    }
}

// ---------------------------------------------------------------------------
// The dossier: overview
// ---------------------------------------------------------------------------

/// A text, or the placeholder.
pub open spec fn text_or_dash(t: Option<String>) -> Seq<char> {
    match t {
        Some(s) => s@,
        None => dash(),
    }
}

/// A date, or "TBA".
pub open spec fn date_or_tba(d: Option<Date>) -> Seq<char> {
    match d {
        Some(x) => date_text(x),
        None => seq!['T', 'B', 'A'],
    }
}

/// The listing venues, "NSE" when unknown.
pub open spec fn exchanges_text(ipo: Ipo) -> Seq<char> {
    match ipo.exchange {
        Some(e) => e@,
        None => seq!['N', 'S', 'E'],
    }
}

/// "kind | venues | window": the issue type (else "IPO"), the venues and
/// "open – close" (else "dates TBA").
pub open spec fn meta_line(ipo: Ipo) -> Seq<char> {
    let kind = match ipo.issue_type {
        Some(t) => t@,
        None => seq!['I', 'P', 'O'],
    };
    let window = match (ipo.open_date, ipo.close_date) {
        (Some(o), Some(c)) => date_text(o) + seq![' ', '–', ' '] + date_text(c),
        _ => seq!['d', 'a', 't', 'e', 's', ' ', 'T', 'B', 'A'],
    };
    kind + seq![' ', '|', ' '] + exchanges_text(ipo) + seq![' ', '|', ' '] + window
}

/// The price a minimum application is valued at: the final price, else the
/// top of the band.
pub open spec fn application_price(ipo: Ipo) -> Option<Decimal> {
    match ipo.final_price {
        Some(p) => Some(p),
        None => ipo.price_band_high,
    }
}

/// Whether the minimum investment (price × lot) can be computed: always,
/// unless the product overflows `rust_decimal`.
pub open spec fn min_investment_fits(ipo: Ipo) -> bool {
    match (application_price(ipo), ipo.lot_size) {
        (Some(p), Some(l)) => crate::decimal::decimal_product(p, crate::decimal::int_decimal(l as int)) is Some,
        _ => true,
    }
}

/// The minimum investment: price × lot in rupees, or the placeholder.
pub open spec fn min_investment_text(ipo: Ipo) -> Seq<char> {
    match (application_price(ipo), ipo.lot_size) {
        (Some(p), Some(l)) => match crate::decimal::decimal_product(p, crate::decimal::int_decimal(l as int)) {
            Some(v) => rupees_text(v),
            None => dash(),
        },
        _ => dash(),
    }
}

/// The overview tab of the dossier.
pub struct Overview {
    pub company: String,
    pub status: String,
    pub meta: String,
    pub price_band: String,
    pub final_price: String,
    pub face_value: String,
    pub lot_size: String,
    pub min_investment: String,
    pub issue_size: String,
    pub shares_offered: String,
    pub issue_type: String,
    pub offer_type: String,
    pub listing_at: String,
    pub open: String,
    pub close: String,
    pub allotment: String,
    pub listing: String,
    pub fresh_issue: String,
    pub offer_for_sale: String,
}

/// The overview texts of `ipo`.
pub open spec fn overview_facts(ipo: Ipo, o: Overview) -> bool {
    &&& o.company@ == ipo.company_name@
    &&& o.status@ == crate::types::status_name(ipo.status)
    &&& o.meta@ == meta_line(ipo)
    &&& o.price_band@ == rupees_or_dash(ipo.price_band_low) + seq![' ', '–', ' '] + rupees_or_dash(
        ipo.price_band_high,
    )
    &&& o.final_price@ == rupees_or_dash(ipo.final_price)
    &&& o.face_value@ == rupees_or_dash(ipo.face_value)
    &&& o.lot_size@ == lot_cell(ipo.lot_size) + seq![' ', 's', 'h', 'a', 'r', 'e', 's']
    &&& o.min_investment@ == min_investment_text(ipo)
    &&& o.issue_size@ == match ipo.issue_size_cr {
        Some(d) => rupees_text(d) + seq![' ', 'C', 'r'],
        None => dash(),
    }
    &&& o.shares_offered@ == shares_or_dash(ipo.shares_offered)
    &&& o.issue_type@ == text_or_dash(ipo.issue_type)
    &&& o.offer_type@ == text_or_dash(ipo.offer_type)
    &&& o.listing_at@ == exchanges_text(ipo)
    &&& o.open@ == date_or_tba(ipo.open_date)
    &&& o.close@ == date_or_tba(ipo.close_date)
    &&& o.allotment@ == date_or_tba(ipo.allotment_date)
    &&& o.listing@ == date_or_tba(ipo.listing_date)
    &&& o.fresh_issue@ == shares_or_dash(ipo.fresh_issue_shares)
    &&& o.offer_for_sale@ == shares_or_dash(ipo.ofs_shares)
}

fn text_or_dash_of(t: &Option<String>) -> (r: String)
    ensures
        r@ == text_or_dash(*t),
{
    match t {
        Some(s) => s.clone(),
        None => string_from(&dash_chars()),
    }
}

fn date_or_tba_of(d: Option<Date>) -> (r: String)
    requires
        d matches Some(x) ==> x.wf(),
    ensures
        r@ == date_or_tba(d),
{
    match d {
        Some(x) => date(x),
        None => {
            let mut v: Vec<char> = Vec::new();
            v.push('T');
            v.push('B');
            v.push('A');
            assert(v@ =~= seq!['T', 'B', 'A']);
            string_from(&v)
        },
    }
}

fn exchanges_of(ipo: &Ipo) -> (r: String)
    ensures
        r@ == exchanges_text(*ipo),
{
    match &ipo.exchange {
        Some(e) => e.clone(),
        None => {
            let mut v: Vec<char> = Vec::new();
            v.push('N');
            v.push('S');
            v.push('E');
            assert(v@ =~= seq!['N', 'S', 'E']);
            string_from(&v)
        },
    }
}

fn meta_line_of(ipo: &Ipo) -> (r: String)
    requires
        ipo.wf(),
    ensures
        r@ == meta_line(*ipo),
{
    let mut v: Vec<char> = Vec::new();
    match &ipo.issue_type {
        Some(t) => push_all(&mut v, t),
        None => {
            v.push('I');
            v.push('P');
            v.push('O');
        },
    }
    v.push(' ');
    v.push('|');
    v.push(' ');
    push_all(&mut v, &exchanges_of(ipo));
    v.push(' ');
    v.push('|');
    v.push(' ');
    match (ipo.open_date, ipo.close_date) {
        (Some(o), Some(c)) => {
            push_all(&mut v, &date(o));
            v.push(' ');
            v.push('–');
            v.push(' ');
            push_all(&mut v, &date(c));
        },
        _ => {
            let t = chars_of("dates TBA");
            proof {
                reveal_strlit("dates TBA");
            }
            append(&mut v, &t);
        },
    }
    assert(v@ =~= meta_line(*ipo));
    string_from(&v)
}

fn min_investment_of(ipo: &Ipo) -> (r: String)
    requires
        ipo.wf(),
    ensures
        r@ == min_investment_text(*ipo),
{
    let price = match ipo.final_price {
        Some(p) => Some(p),
        None => ipo.price_band_high,
    };
    match (price, ipo.lot_size) {
        (Some(p), Some(l)) => match crate::decimal::checked_mul(p, crate::decimal::from_i64(l)) {
            Some(v) => rupees(v),
            None => string_from(&dash_chars()),
        },
        _ => string_from(&dash_chars()),
    }
}

/// The overview texts for `ipo`: key facts, timetable and issue split.
/// The minimum investment must be computable (see `overview_checked`).
pub fn overview(ipo: &Ipo) -> (o: Overview)
    requires
        ipo.wf(),
        min_investment_fits(*ipo),
    ensures
        overview_facts(*ipo, o),
{
    let mut band: Vec<char> = Vec::new();
    push_all(&mut band, &rupees_or_dash_of(ipo.price_band_low));
    band.push(' ');
    band.push('–');
    band.push(' ');
    push_all(&mut band, &rupees_or_dash_of(ipo.price_band_high));
    assert(band@ =~= rupees_or_dash(ipo.price_band_low) + seq![' ', '–', ' '] + rupees_or_dash(
        ipo.price_band_high,
    ));
    let mut lot: Vec<char> = match ipo.lot_size {
        Some(l) => crate::format::int_text_of(l),
        None => dash_chars(),
    };
    lot.push(' ');
    lot.push('s');
    lot.push('h');
    lot.push('a');
    lot.push('r');
    lot.push('e');
    lot.push('s');
    assert(lot@ =~= lot_cell(ipo.lot_size) + seq![' ', 's', 'h', 'a', 'r', 'e', 's']);
    let issue_size = match ipo.issue_size_cr {
        Some(d) => crate::format::crores(d),
        None => string_from(&dash_chars()),
    };
    let o = Overview {
        company: ipo.company_name.clone(),
        status: ipo.status.as_str().to_owned(),
        meta: meta_line_of(ipo),
        price_band: string_from(&band),
        final_price: rupees_or_dash_of(ipo.final_price),
        face_value: rupees_or_dash_of(ipo.face_value),
        lot_size: string_from(&lot),
        min_investment: min_investment_of(ipo),
        issue_size,
        shares_offered: shares_or_dash_of(ipo.shares_offered),
        issue_type: text_or_dash_of(&ipo.issue_type),
        offer_type: text_or_dash_of(&ipo.offer_type),
        listing_at: exchanges_of(ipo),
        open: date_or_tba_of(ipo.open_date),
        close: date_or_tba_of(ipo.close_date),
        allotment: date_or_tba_of(ipo.allotment_date),
        listing: date_or_tba_of(ipo.listing_date),
        fresh_issue: shares_or_dash_of(ipo.fresh_issue_shares),
        offer_for_sale: shares_or_dash_of(ipo.ofs_shares),
    };
    assert(o.status@ == crate::types::status_name(ipo.status));
    o
}

/// The overview texts for `ipo`, or `None` when its minimum investment
/// (price × lot) overflows.
pub fn overview_checked(ipo: &Ipo) -> (r: Option<Overview>)
    requires
        ipo.wf(),
    ensures
        r is Some <==> min_investment_fits(*ipo),
        r matches Some(o) ==> overview_facts(*ipo, o),
{
    let price = match ipo.final_price {
        Some(p) => Some(p),
        None => ipo.price_band_high,
    };
    match (price, ipo.lot_size) {
        (Some(p), Some(l)) => {
            if crate::decimal::checked_mul(p, crate::decimal::from_i64(l)).is_none() {
                return None;
            }
        },
        _ => {},
    }
    Some(overview(ipo))
}

// ---------------------------------------------------------------------------
// The dossier: documents
// ---------------------------------------------------------------------------

/// The document links: the RHP and the DRHP (each possibly missing), then
/// the Chittorgarh detail page when known.
pub open spec fn doc_links_spec(ipo: Ipo) -> Seq<(Seq<char>, Option<Seq<char>>)> {
    let base = seq![
        ("Red Herring Prospectus (RHP)"@, crate::chittorgarh::opt_text(ipo.rhp_url)),
        ("Draft Red Herring Prospectus (DRHP)"@, crate::chittorgarh::opt_text(ipo.drhp_url)),
    ];
    match ipo.detail_url {
        Some(u) => base.push(("Chittorgarh detail page"@, Some(u@))),
        None => base,
    }
}

fn opt_clone(o: &Option<String>) -> (r: Option<String>)
    ensures
        crate::chittorgarh::opt_text(r) == crate::chittorgarh::opt_text(*o),
{
    match o {
        Some(s) => Some(s.clone()),
        None => None,
    }
}

/// The labelled document links of the docs tab.
pub fn doc_links(ipo: &Ipo) -> (r: Vec<(String, Option<String>)>)
    ensures
        r@.map_values(|l: (String, Option<String>)| (l.0@, crate::chittorgarh::opt_text(l.1)))
            == doc_links_spec(*ipo),
{
    let mut v: Vec<(String, Option<String>)> = Vec::new();
    v.push(("Red Herring Prospectus (RHP)".to_owned(), opt_clone(&ipo.rhp_url)));
    v.push(("Draft Red Herring Prospectus (DRHP)".to_owned(), opt_clone(&ipo.drhp_url)));
    match &ipo.detail_url {
        Some(u) => {
            v.push(("Chittorgarh detail page".to_owned(), Some(u.clone())));
        },
        None => {},
    }
    assert(v@.map_values(|l: (String, Option<String>)| (l.0@, crate::chittorgarh::opt_text(l.1)))
        =~= doc_links_spec(*ipo));
    v
}

// ---------------------------------------------------------------------------
// The dossier: subscription
// ---------------------------------------------------------------------------

/// The short placeholder of the subscription grid.
pub open spec fn en_dash() -> Seq<char> {
    seq!['–']
}

/// Whether some snapshot was taken on day `d`.
pub open spec fn polled_on(subs: Seq<SubscriptionSnapshot>, d: Date) -> bool {
    exists|i: int| 0 <= i < subs.len() && (#[trigger] subs[i]).snapshot_at == d
}

/// Days in strictly increasing order.
pub open spec fn increasing_days(days: Seq<Date>) -> bool {
    forall|i: int, j: int| 0 <= i < j < days.len() ==> crate::date::date_lt(#[trigger] days[i], #[trigger] days[j])
}

/// The poll days: every day some snapshot was taken, once each, in order.
pub open spec fn is_poll_days(subs: Seq<SubscriptionSnapshot>, days: Seq<Date>) -> bool {
    &&& increasing_days(days)
    &&& forall|d: Date| days.contains(d) <==> polled_on(subs, d)
}

/// Position of the first snapshot of category `c` taken on day `d`, at or
/// after `i`.
pub open spec fn first_cell(s: Seq<SubscriptionSnapshot>, c: SubCategory, d: Date, i: int) -> Option<int>
    decreases s.len() - i,
{
    if i < 0 || i >= s.len() {
        None
    } else if s[i].category == c && s[i].snapshot_at == d {
        Some(i)
    } else {
        first_cell(s, c, d, i + 1)
    }
}

/// The times subscribed the grid shows for category `c` on day `d`.
pub open spec fn cell_times(s: Seq<SubscriptionSnapshot>, c: SubCategory, d: Date) -> Option<Decimal> {
    match first_cell(s, c, d, 0) {
        Some(i) => s[i].times_subscribed,
        None => None,
    }
}

/// How a grid cell is shaded: at least fully subscribed, under-subscribed,
/// or without a figure.
#[derive(Debug, Clone, Copy, PartialEq, Eq, Structural)]
pub enum Tone {
    Hot,
    Cold,
    Empty,
}

pub open spec fn one() -> Decimal {
    Decimal { negative: false, mantissa: 1, scale: 0 }
}

pub open spec fn zero() -> Decimal {
    Decimal { negative: false, mantissa: 0, scale: 0 }
}

pub open spec fn tone_of(t: Option<Decimal>) -> Tone {
    match t {
        Some(x) => if crate::decimal::value_order(x, one()) >= 0 {
            Tone::Hot
        } else {
            Tone::Cold
        },
        None => Tone::Empty,
    }
}

/// A times figure, or the short placeholder.
pub open spec fn times_or_en_dash(d: Option<Decimal>) -> Seq<char> {
    match d {
        Some(x) => times_text(x),
        None => en_dash(),
    }
}

/// The largest times subscribed among the snapshots (zero when none is
/// positive); the first of equal values stands.
pub open spec fn max_times(s: Seq<SubscriptionSnapshot>) -> Decimal
    decreases s.len(),
{
    if s.len() == 0 {
        zero()
    } else {
        let acc = max_times(s.drop_last());
        match s.last().times_subscribed {
            Some(t) => if crate::decimal::value_order(t, acc) > 0 {
                t
            } else {
                acc
            },
            None => acc,
        }
    }
}

/// The latest snapshot of category `c` (the last one among those of the
/// latest day).
pub open spec fn latest_of(s: Seq<SubscriptionSnapshot>, c: SubCategory) -> Option<SubscriptionSnapshot>
    decreases s.len(),
{
    if s.len() == 0 {
        None
    } else {
        let prev = latest_of(s.drop_last(), c);
        let x = s.last();
        if x.category != c {
            prev
        } else {
            match prev {
                Some(p) => if crate::date::date_le(p.snapshot_at, x.snapshot_at) {
                    Some(x)
                } else {
                    prev
                },
                None => Some(x),
            }
        }
    }
}

/// The times subscribed of the latest snapshot of category `c`.
pub open spec fn latest_times(s: Seq<SubscriptionSnapshot>, c: SubCategory) -> Option<Decimal> {
    match latest_of(s, c) {
        Some(x) => x.times_subscribed,
        None => None,
    }
}

/// `round_dp(t / max * 100, 0)` as `rust_decimal` computes it, when no step
/// overflows.
pub open spec fn bar_percent(t: Decimal, max: Decimal) -> Option<Decimal> {
    match crate::decimal::decimal_quotient(t, max) {
        Some(q) => match crate::decimal::decimal_product(q, crate::decimal::int_decimal(100)) {
            Some(p) => Some(rounded_dp(p, 0)),
            None => None,
        },
        None => None,
    }
}

/// The fill of the bar of category `c`: its latest figure as a whole
/// percentage of the largest figure; none when either is missing or the
/// largest is not positive.
pub open spec fn bar_fill(s: Seq<SubscriptionSnapshot>, c: SubCategory) -> Option<Decimal> {
    match latest_times(s, c) {
        Some(t) => if crate::decimal::value_lt(zero(), max_times(s)) {
            bar_percent(t, max_times(s))
        } else {
            None
        },
        None => None,
    }
}

/// Whether the bar of category `c` can be computed: always, unless a step
/// of the percentage overflows `rust_decimal`.
pub open spec fn bar_fits(s: Seq<SubscriptionSnapshot>, c: SubCategory) -> bool {
    match latest_times(s, c) {
        Some(t) => crate::decimal::value_lt(zero(), max_times(s)) ==> bar_percent(t, max_times(s)) is Some,
        None => true,
    }
}

/// The grid rows and bars, in this order.
pub open spec fn panel_category(k: int) -> SubCategory {
    if k == 0 {
        SubCategory::Qib
    } else if k == 1 {
        SubCategory::Nii
    } else if k == 2 {
        SubCategory::Retail
    } else {
        SubCategory::Total
    }
}

pub open spec fn bars_fit(s: Seq<SubscriptionSnapshot>) -> bool {
    forall|k: int| 0 <= k < 4 ==> bar_fits(s, #[trigger] panel_category(k))
}

/// One cell of the category × day grid.
pub struct GridCell {
    pub text: String,
    pub tone: Tone,
}

/// One row of the grid: a category and its cells, one per poll day.
pub struct GridRow {
    pub label: String,
    pub cells: Vec<GridCell>,
}

/// One progress bar: a category, its fill in percent (none for an empty
/// bar) and its latest figure.
pub struct Bar {
    pub label: String,
    pub fill_percent: Option<Decimal>,
    pub text: String,
}

/// The subscription tab of the dossier.
pub struct SubscriptionPanel {
    pub title: String,
    pub days: Vec<Date>,
    pub day_labels: Vec<String>,
    pub rows: Vec<GridRow>,
    pub bars: Vec<Bar>,
}

/// The subscription tab for the snapshots `s`.
pub open spec fn panel_facts(s: Seq<SubscriptionSnapshot>, p: SubscriptionPanel) -> bool {
    let n = p.days.len();
    &&& is_poll_days(s, p.days@)
    &&& p.title@ == "SUBSCRIPTION — "@ + int_text(n as int) + " polls"@
    &&& p.day_labels.len() == n
    &&& forall|j: int| 0 <= j < n ==> (#[trigger] p.day_labels@[j])@ == date_text(p.days@[j])
    &&& p.rows.len() == 4
    &&& p.bars.len() == 4
    &&& forall|k: int|
        0 <= k < 4 ==> {
            let c = panel_category(k);
            let row = #[trigger] p.rows@[k];
            &&& row.label@ == category_label(c)
            &&& row.cells.len() == n
            &&& forall|j: int|
                0 <= j < n ==> {
                    let t = cell_times(s, c, p.days@[j]);
                    &&& (#[trigger] row.cells@[j]).text@ == times_or_en_dash(t)
                    &&& row.cells@[j].tone == tone_of(t)
                }
        }
    &&& forall|k: int|
        0 <= k < 4 ==> {
            let c = panel_category(k);
            let bar = #[trigger] p.bars@[k];
            &&& bar.label@ == category_label(c)
            &&& bar.fill_percent == bar_fill(s, c)
            &&& bar.text@ == times_or_en_dash(latest_times(s, c))
        }
}

proof fn lemma_polled_on_push(s: Seq<SubscriptionSnapshot>, x: SubscriptionSnapshot, d: Date)
    ensures
        polled_on(s.push(x), d) <==> (polled_on(s, d) || x.snapshot_at == d),
{
    if polled_on(s.push(x), d) && x.snapshot_at != d {
        let i = choose|i: int| 0 <= i < s.push(x).len() && (#[trigger] s.push(x)[i]).snapshot_at == d;
        assert(i < s.len());
        assert(s[i] == s.push(x)[i]);
    }
    if polled_on(s, d) {
        let i = choose|i: int| 0 <= i < s.len() && (#[trigger] s[i]).snapshot_at == d;
        assert(s.push(x)[i] == s[i]);
    }
    if x.snapshot_at == d {
        assert(s.push(x)[s.len() as int] == x);
    }
}

/// The poll days of the snapshots: each distinct day once, in order.
pub fn poll_days(subs: &Vec<SubscriptionSnapshot>) -> (days: Vec<Date>)
    ensures
        is_poll_days(subs@, days@),
{
    let mut days: Vec<Date> = Vec::new();
    let mut i: usize = 0;
    while i < subs.len()
        invariant
            i <= subs.len(),
            increasing_days(days@),
            forall|d: Date| days@.contains(d) <==> polled_on(subs@.take(i as int), d),
        decreases subs.len() - i,
    {
        let d = subs[i].snapshot_at;
        let ghost old_days = days@;
        let mut p: usize = 0;
        while p < days.len() && crate::date::date_before(days[p], d)
            invariant
                p <= days.len(),
                forall|k: int| 0 <= k < p ==> crate::date::date_lt(#[trigger] days@[k], d),
            decreases days.len() - p,
        {
            p = p + 1;
        }
        if p < days.len() && days[p] == d {
            assert(days@.contains(d));
        } else {
            let ghost before = days@;
            proof {
                if p < before.len() {
                    assert(!crate::date::date_lt(before[p as int], d));
                    assert(before[p as int] != d);
                    assert(crate::date::date_lt(d, before[p as int]));
                }
            }
            days.insert(p, d);
            assert(days@ == before.insert(p as int, d));
            proof {
                assert forall|a: int, b: int| 0 <= a < b < days@.len() implies crate::date::date_lt(
                    #[trigger] days@[a],
                    #[trigger] days@[b],
                ) by {
                    if b < p {
                    } else if a < p && b == p {
                    } else if a < p && b > p {
                        assert(crate::date::date_lt(before[a], d));
                        assert(crate::date::date_lt(d, before[p as int]));
                        if p as int <= b - 1 && p as int != b - 1 {
                            assert(crate::date::date_lt(before[p as int], before[b - 1]));
                        }
                    } else if a == p {
                        if p as int != b - 1 {
                            assert(crate::date::date_lt(before[p as int], before[b - 1]));
                        }
                    } else {
                    }
                }
                assert forall|e: Date| days@.contains(e) <==> (before.contains(e) || e == d) by {
                    if days@.contains(e) {
                        let k = choose|k: int| 0 <= k < days@.len() && days@[k] == e;
                        if k < p {
                            assert(before[k] == e);
                        } else if k > p {
                            assert(before[k - 1] == e);
                        }
                    }
                    if before.contains(e) {
                        let k = choose|k: int| 0 <= k < before.len() && before[k] == e;
                        if k < p {
                            assert(days@[k] == e);
                        } else {
                            assert(days@[k + 1] == e);
                        }
                    }
                    if e == d {
                        assert(days@[p as int] == d);
                    }
                }
            }
        }
        proof {
            assert(forall|e: Date| days@.contains(e) <==> (old_days.contains(e) || e == d));
            assert(subs@.take(i + 1) =~= subs@.take(i as int).push(subs@[i as int]));
            assert forall|e: Date| days@.contains(e) <==> polled_on(subs@.take(i + 1), e) by {
                lemma_polled_on_push(subs@.take(i as int), subs@[i as int], e);
                assert(old_days.contains(e) <==> polled_on(subs@.take(i as int), e));
                assert(days@.contains(e) <==> (old_days.contains(e) || e == d));
            }
        }
        i = i + 1;
    }
    assert(subs@.take(subs.len() as int) =~= subs@);
    days
}

fn en_dash_string() -> (r: String)
    ensures
        r@ == en_dash(),
{
    let mut v: Vec<char> = Vec::new();
    v.push('–');
    assert(v@ =~= en_dash());
    string_from(&v)
}

fn times_or_en_dash_of(d: Option<Decimal>) -> (r: String)
    requires
        d matches Some(x) ==> x.wf(),
    ensures
        r@ == times_or_en_dash(d),
{
    match d {
        Some(x) => times(x),
        None => en_dash_string(),
    }
}

fn tone_for(t: Option<Decimal>) -> (r: Tone)
    requires
        t matches Some(x) ==> x.wf(),
    ensures
        r == tone_of(t),
{
    match t {
        Some(x) => if crate::decimal::compare(x, Decimal { negative: false, mantissa: 1, scale: 0 }) >= 0 {
            Tone::Hot
        } else {
            Tone::Cold
        },
        None => Tone::Empty,
    }
}

proof fn lemma_first_cell_in_range(s: Seq<SubscriptionSnapshot>, c: SubCategory, d: Date, i: int)
    ensures
        first_cell(s, c, d, i) matches Some(k) ==> i <= k < s.len(),
    decreases s.len() - i,
{
    if 0 <= i < s.len() && !(s[i].category == c && s[i].snapshot_at == d) {
        lemma_first_cell_in_range(s, c, d, i + 1);
    }
}

fn cell_times_of(subs: &Vec<SubscriptionSnapshot>, c: SubCategory, d: Date) -> (r: Option<Decimal>)
    requires
        forall|i: int| 0 <= i < subs.len() ==> (#[trigger] subs@[i]).wf(),
    ensures
        r == cell_times(subs@, c, d),
        r matches Some(x) ==> x.wf(),
{
    proof {
        lemma_first_cell_in_range(subs@, c, d, 0);
    }
    let mut i: usize = 0;
    while i < subs.len()
        invariant
            i <= subs.len(),
            forall|k: int| 0 <= k < subs.len() ==> (#[trigger] subs@[k]).wf(),
            first_cell(subs@, c, d, 0) == first_cell(subs@, c, d, i as int),
        decreases subs.len() - i,
    {
        if subs[i].category == c && subs[i].snapshot_at == d {
            return subs[i].times_subscribed;
        }
        i = i + 1;
    }
    None
}

fn max_times_of(subs: &Vec<SubscriptionSnapshot>) -> (r: Decimal)
    requires
        forall|i: int| 0 <= i < subs.len() ==> (#[trigger] subs@[i]).wf(),
    ensures
        r == max_times(subs@),
        r.wf(),
{
    let mut acc = Decimal { negative: false, mantissa: 0, scale: 0 };
    let mut i: usize = 0;
    while i < subs.len()
        invariant
            i <= subs.len(),
            forall|k: int| 0 <= k < subs.len() ==> (#[trigger] subs@[k]).wf(),
            acc == max_times(subs@.take(i as int)),
            acc.wf(),
        decreases subs.len() - i,
    {
        assert(subs@.take(i + 1).drop_last() =~= subs@.take(i as int));
        assert(subs@.take(i + 1).last() == subs@[i as int]);
        assert(subs@[i as int].wf());
        match subs[i].times_subscribed {
            Some(t) => {
                if crate::decimal::compare(t, acc) > 0 {
                    acc = t;
                }
            },
            None => {},
        }
        i = i + 1;
    }
    assert(subs@.take(subs.len() as int) =~= subs@);
    acc
}

fn latest_times_of(subs: &Vec<SubscriptionSnapshot>, c: SubCategory) -> (r: Option<Decimal>)
    requires
        forall|i: int| 0 <= i < subs.len() ==> (#[trigger] subs@[i]).wf(),
    ensures
        r == latest_times(subs@, c),
        r matches Some(x) ==> x.wf(),
{
    let mut best: Option<usize> = None;
    let mut i: usize = 0;
    while i < subs.len()
        invariant
            i <= subs.len(),
            forall|k: int| 0 <= k < subs.len() ==> (#[trigger] subs@[k]).wf(),
            match best {
                Some(b) => b < i && latest_of(subs@.take(i as int), c) == Some(subs@[b as int]),
                None => latest_of(subs@.take(i as int), c) is None,
            },
        decreases subs.len() - i,
    {
        assert(subs@.take(i + 1).drop_last() =~= subs@.take(i as int));
        assert(subs@.take(i + 1).last() == subs@[i as int]);
        if subs[i].category == c {
            match best {
                Some(b) => {
                    if !crate::date::date_before(subs[i].snapshot_at, subs[b].snapshot_at) {
                        best = Some(i);
                    }
                },
                None => {
                    best = Some(i);
                },
            }
        }
        i = i + 1;
    }
    assert(subs@.take(subs.len() as int) =~= subs@);
    match best {
        Some(b) => {
            assert(subs@[b as int].wf());
            subs[b].times_subscribed
        },
        None => None,
    }
}

fn panel_category_of(k: usize) -> (c: SubCategory)
    requires
        k < 4,
    ensures
        c == panel_category(k as int),
{
    if k == 0 {
        SubCategory::Qib
    } else if k == 1 {
        SubCategory::Nii
    } else if k == 2 {
        SubCategory::Retail
    } else {
        SubCategory::Total
    }
}

fn bar_fill_of(subs: &Vec<SubscriptionSnapshot>, c: SubCategory, max: Decimal) -> (r: Option<Decimal>)
    requires
        forall|i: int| 0 <= i < subs.len() ==> (#[trigger] subs@[i]).wf(),
        max == max_times(subs@),
        max.wf(),
        bar_fits(subs@, c),
    ensures
        r == bar_fill(subs@, c),
{
    match latest_times_of(subs, c) {
        Some(t) => {
            let nil = Decimal { negative: false, mantissa: 0, scale: 0 };
            if crate::decimal::compare(nil, max) < 0 {
                let q = crate::decimal::checked_div(t, max).unwrap();
                let hundred = crate::decimal::from_u64(100);
                let p = crate::decimal::checked_mul(q, hundred).unwrap();
                Some(crate::decimal::round_dp(p, 0))
            } else {
                None
            }
        },
        None => None,
    }
}

fn title_of(n: usize) -> (r: String)
    ensures
        r@ == "SUBSCRIPTION — "@ + int_text(n as int) + " polls"@,
{
    let mut v = chars_of("SUBSCRIPTION — ");
    let mut digits = crate::format::digits_of(n as u128);
    if n == 0 {
        digits.push('0');
        assert(digits@ =~= seq!['0']);
    }
    assert(digits@ == int_text(n as int));
    append(&mut v, &digits);
    let tail = chars_of(" polls");
    append(&mut v, &tail);
    string_from(&v)
}

fn grid_row(subs: &Vec<SubscriptionSnapshot>, c: SubCategory, days: &Vec<Date>) -> (r: GridRow)
    requires
        forall|i: int| 0 <= i < subs.len() ==> (#[trigger] subs@[i]).wf(),
    ensures
        r.label@ == category_label(c),
        r.cells.len() == days.len(),
        forall|j: int|
            0 <= j < days.len() ==> {
                let t = cell_times(subs@, c, days@[j]);
                &&& (#[trigger] r.cells@[j]).text@ == times_or_en_dash(t)
                &&& r.cells@[j].tone == tone_of(t)
            },
{
    let mut cells: Vec<GridCell> = Vec::new();
    let mut j: usize = 0;
    while j < days.len()
        invariant
            j <= days.len(),
            forall|i: int| 0 <= i < subs.len() ==> (#[trigger] subs@[i]).wf(),
            cells.len() == j,
            forall|k: int|
                0 <= k < j ==> {
                    let t = cell_times(subs@, c, days@[k]);
                    &&& (#[trigger] cells@[k]).text@ == times_or_en_dash(t)
                    &&& cells@[k].tone == tone_of(t)
                },
        decreases days.len() - j,
    {
        let t = cell_times_of(subs, c, days[j]);
        cells.push(GridCell { text: times_or_en_dash_of(t), tone: tone_for(t) });
        j = j + 1;
    }
    GridRow { label: category_label_of(c), cells }
}

/// The subscription tab for the snapshots of one IPO: the poll days, the
/// category × day grid of times subscribed, and the bars of each
/// category's latest figure against the largest. Every bar must be
/// computable (see `subscription_panel_checked`).
pub fn subscription_panel(subs: &Vec<SubscriptionSnapshot>) -> (p: SubscriptionPanel)
    requires
        forall|i: int| 0 <= i < subs.len() ==> (#[trigger] subs@[i]).wf(),
        bars_fit(subs@),
    ensures
        panel_facts(subs@, p),
{
    let days = poll_days(subs);
    let mut labels: Vec<String> = Vec::new();
    let mut j: usize = 0;
    while j < days.len()
        invariant
            j <= days.len(),
            is_poll_days(subs@, days@),
            forall|i: int| 0 <= i < subs.len() ==> (#[trigger] subs@[i]).wf(),
            labels.len() == j,
            forall|k: int| 0 <= k < j ==> (#[trigger] labels@[k])@ == date_text(days@[k]),
        decreases days.len() - j,
    {
        proof {
            assert(days@.contains(days@[j as int]));
            let i = choose|i: int| 0 <= i < subs@.len() && (#[trigger] subs@[i]).snapshot_at == days@[j as int];
            assert(subs@[i].wf());
        }
        labels.push(date(days[j]));
        j = j + 1;
    }
    let max = max_times_of(subs);
    let mut rows: Vec<GridRow> = Vec::new();
    let mut bars: Vec<Bar> = Vec::new();
    let mut k: usize = 0;
    while k < 4
        invariant
            k <= 4,
            forall|i: int| 0 <= i < subs.len() ==> (#[trigger] subs@[i]).wf(),
            bars_fit(subs@),
            max == max_times(subs@),
            max.wf(),
            rows.len() == k,
            bars.len() == k,
            forall|q: int|
                0 <= q < k ==> {
                    let c = panel_category(q);
                    let row = #[trigger] rows@[q];
                    &&& row.label@ == category_label(c)
                    &&& row.cells.len() == days.len()
                    &&& forall|j: int|
                        0 <= j < days.len() ==> {
                            let t = cell_times(subs@, c, days@[j]);
                            &&& (#[trigger] row.cells@[j]).text@ == times_or_en_dash(t)
                            &&& row.cells@[j].tone == tone_of(t)
                        }
                },
            forall|q: int|
                0 <= q < k ==> {
                    let c = panel_category(q);
                    let bar = #[trigger] bars@[q];
                    &&& bar.label@ == category_label(c)
                    &&& bar.fill_percent == bar_fill(subs@, c)
                    &&& bar.text@ == times_or_en_dash(latest_times(subs@, c))
                },
        decreases 4 - k,
    {
        let c = panel_category_of(k);
        assert(bar_fits(subs@, panel_category(k as int)));
        rows.push(grid_row(subs, c, &days));
        let latest = latest_times_of(subs, c);
        let fill = bar_fill_of(subs, c, max);
        bars.push(Bar { label: category_label_of(c), fill_percent: fill, text: times_or_en_dash_of(latest) });
        k = k + 1;
    }
    SubscriptionPanel { title: title_of(days.len()), days, day_labels: labels, rows, bars }
}

/// The subscription tab, or `None` when a bar's percentage overflows.
pub fn subscription_panel_checked(subs: &Vec<SubscriptionSnapshot>) -> (r: Option<SubscriptionPanel>)
    requires
        forall|i: int| 0 <= i < subs.len() ==> (#[trigger] subs@[i]).wf(),
    ensures
        r is Some <==> bars_fit(subs@),
        r matches Some(p) ==> panel_facts(subs@, p),
{
    let max = max_times_of(subs);
    let nil = Decimal { negative: false, mantissa: 0, scale: 0 };
    let positive = crate::decimal::compare(nil, max) < 0;
    let mut k: usize = 0;
    while k < 4
        invariant
            k <= 4,
            forall|i: int| 0 <= i < subs.len() ==> (#[trigger] subs@[i]).wf(),
            max == max_times(subs@),
            max.wf(),
            positive == crate::decimal::value_lt(zero(), max),
            forall|q: int| 0 <= q < k ==> bar_fits(subs@, #[trigger] panel_category(q)),
        decreases 4 - k,
    {
        let c = panel_category_of(k);
        if positive {
            match latest_times_of(subs, c) {
                Some(t) => {
                    match crate::decimal::checked_div(t, max) {
                        Some(q) => {
                            if crate::decimal::checked_mul(q, crate::decimal::from_u64(100)).is_none() {
                                assert(!bar_fits(subs@, panel_category(k as int)));
                                return None;
                            }
                        },
                        None => {
                            assert(!bar_fits(subs@, panel_category(k as int)));
                            return None;
                        },
                    }
                },
                None => {},
            }
        }
        k = k + 1;
    }
    Some(subscription_panel(subs))
}

// ---------------------------------------------------------------------------
// The dossier: performance
// ---------------------------------------------------------------------------

/// How a close is coloured against the issue price.
#[derive(Debug, Clone, Copy, PartialEq, Eq, Structural)]
pub enum PriceTone {
    Up,
    Down,
    Plain,
}

/// One line of the OHLCV table.
pub struct PriceRow {
    pub date: String,
    pub open: String,
    pub high: String,
    pub low: String,
    pub close: String,
    pub volume: String,
    pub close_tone: PriceTone,
}

/// The performance tab: the headline figures and the latest sessions,
/// newest first.
pub struct Performance {
    pub issue_price: String,
    pub listing_close: String,
    pub listing_gain: String,
    pub current_close: String,
    pub current_gain: String,
    pub rows: Vec<PriceRow>,
}

/// What the performance tab shows: a note when there is no price yet, else
/// the figures.
pub enum PerformanceView {
    Empty(String),
    Prices(Performance),
}

/// A price to two decimals, or the placeholder.
pub open spec fn price_or_dash(d: Option<Decimal>) -> Seq<char> {
    match d {
        Some(x) => decimal_text(rounded_dp(x, 2)),
        None => dash(),
    }
}

/// One hundred, the scale of a percentage.
pub open spec fn hundred() -> Decimal {
    Decimal { negative: false, mantissa: 100, scale: 0 }
}

/// The gain from the issue price to a close in percent: the relative
/// change times 100.
pub open spec fn gain_percent(issue: Decimal, close: Decimal) -> Option<Decimal> {
    match crate::format::pct_change_of(issue, close) {
        Some(g) => crate::decimal::decimal_product(g, hundred()),
        None => None,
    }
}

/// The percentage gain from the issue price to a close, signed, or the
/// placeholder when either is missing or the change cannot be computed.
pub open spec fn gain_text(issue: Option<Decimal>, close: Option<Decimal>) -> Seq<char> {
    match (issue, close) {
        (Some(i), Some(c)) => match gain_percent(i, c) {
            Some(g) => crate::format::signed_pct_text(g),
            None => dash(),
        },
        _ => dash(),
    }
}

/// Whether the gain from the issue price to a close can be computed.
pub open spec fn gain_fits(issue: Option<Decimal>, close: Option<Decimal>) -> bool {
    match (issue, close) {
        (Some(i), Some(c)) => i.mantissa == 0 || gain_percent(i, c) is Some,
        _ => true,
    }
}

/// Whether both headline gains of the performance tab can be computed:
/// always, unless a step of a percent change overflows.
pub open spec fn performance_fits(ipo: Ipo, prices: Seq<crate::types::PricePoint>) -> bool {
    prices.len() > 0 ==> {
        &&& gain_fits(application_price(ipo), prices[0].close_price)
        &&& gain_fits(application_price(ipo), prices.last().close_price)
    }
}

pub open spec fn close_tone(close: Option<Decimal>, issue: Option<Decimal>) -> PriceTone {
    match (close, issue) {
        (Some(c), Some(i)) => if crate::decimal::value_order(c, i) >= 0 {
            PriceTone::Up
        } else {
            PriceTone::Down
        },
        _ => PriceTone::Plain,
    }
}

/// The OHLCV line of one session.
pub open spec fn price_row_facts(p: crate::types::PricePoint, issue: Option<Decimal>, r: PriceRow) -> bool {
    &&& r.date@ == date_text(p.trade_date)
    &&& r.open@ == price_or_dash(p.open_price)
    &&& r.high@ == price_or_dash(p.high_price)
    &&& r.low@ == price_or_dash(p.low_price)
    &&& r.close@ == price_or_dash(p.close_price)
    &&& r.volume@ == shares_or_dash(p.volume)
    &&& r.close_tone == close_tone(p.close_price, issue)
}

/// How many sessions the OHLCV table shows.
pub open spec fn table_sessions(n: int) -> int {
    if n < 30 { n } else { 30 }
}

/// The performance tab for `ipo` with its sessions in date order.
pub open spec fn performance_facts(ipo: Ipo, prices: Seq<crate::types::PricePoint>, v: PerformanceView) -> bool {
    if prices.len() == 0 {
        v matches PerformanceView::Empty(note) && note@ == (if ipo.status == crate::types::IpoStatus::Listed {
            "No price history yet — EOD pulls start at 19:30."@
        } else {
            "Price history appears after listing."@
        })
    } else {
        let issue = application_price(ipo);
        let first = prices[0].close_price;
        let last = prices.last().close_price;
        &&& v matches PerformanceView::Prices(p)
        &&& p.issue_price@ == rupees_or_dash(issue)
        &&& p.listing_close@ == rupees_or_dash(first)
        &&& p.listing_gain@ == gain_text(issue, first)
        &&& p.current_close@ == rupees_or_dash(last)
        &&& p.current_gain@ == gain_text(issue, last)
        &&& p.rows.len() == table_sessions(prices.len() as int)
        &&& forall|k: int|
            0 <= k < p.rows.len() ==> price_row_facts(
                prices[prices.len() - 1 - k],
                issue,
                #[trigger] p.rows@[k],
            )
    }
}

fn price_or_dash_of(d: Option<Decimal>) -> (r: String)
    requires
        d matches Some(x) ==> x.wf(),
    ensures
        r@ == price_or_dash(d),
{
    match d {
        Some(x) => string_from(&crate::format::decimal_text_of(crate::decimal::round_dp(x, 2))),
        None => string_from(&dash_chars()),
    }
}

fn gain_of(issue: Option<Decimal>, close: Option<Decimal>) -> (r: String)
    requires
        issue matches Some(x) ==> x.wf(),
        close matches Some(x) ==> x.wf(),
        gain_fits(issue, close),
    ensures
        r@ == gain_text(issue, close),
{
    match (issue, close) {
        (Some(i), Some(c)) => {
            proof {
                if i.mantissa != 0 {
                    assert(crate::format::pct_change_of(i, c) is Some);
                }
            }
            match crate::format::pct_change(i, c) {
                Some(g) => match crate::decimal::checked_mul(
                    g,
                    Decimal { negative: false, mantissa: 100, scale: 0 },
                ) {
                    Some(p) => crate::format::signed_pct(p),
                    None => string_from(&dash_chars()),
                },
                None => string_from(&dash_chars()),
            }
        },
        _ => string_from(&dash_chars()),
    }
}

fn tone_of_close(close: Option<Decimal>, issue: Option<Decimal>) -> (r: PriceTone)
    requires
        issue matches Some(x) ==> x.wf(),
        close matches Some(x) ==> x.wf(),
    ensures
        r == close_tone(close, issue),
{
    match (close, issue) {
        (Some(c), Some(i)) => if crate::decimal::compare(c, i) >= 0 {
            PriceTone::Up
        } else {
            PriceTone::Down
        },
        _ => PriceTone::Plain,
    }
}

fn price_row(p: &crate::types::PricePoint, issue: Option<Decimal>) -> (r: PriceRow)
    requires
        p.wf(),
        issue matches Some(x) ==> x.wf(),
    ensures
        price_row_facts(*p, issue, r),
{
    PriceRow {
        date: date(p.trade_date),
        open: price_or_dash_of(p.open_price),
        high: price_or_dash_of(p.high_price),
        low: price_or_dash_of(p.low_price),
        close: price_or_dash_of(p.close_price),
        volume: shares_or_dash_of(p.volume),
        close_tone: tone_of_close(p.close_price, issue),
    }
}

/// The performance tab for `ipo` given its sessions in date order: issue
/// price (final, else the top of the band), listing and current closes with
/// their gains, and the last 30 sessions newest first. Both gains must be
/// computable (see `performance_checked`).
pub fn performance(ipo: &Ipo, prices: &Vec<crate::types::PricePoint>) -> (v: PerformanceView)
    requires
        ipo.wf(),
        forall|i: int| 0 <= i < prices.len() ==> (#[trigger] prices@[i]).wf(),
        performance_fits(*ipo, prices@),
    ensures
        performance_facts(*ipo, prices@, v),
{
    if prices.len() == 0 {
        let note = if ipo.status == crate::types::IpoStatus::Listed {
            "No price history yet — EOD pulls start at 19:30.".to_owned()
        } else {
            "Price history appears after listing.".to_owned()
        };
        return PerformanceView::Empty(note);
    }
    let issue = match ipo.final_price {
        Some(p) => Some(p),
        None => ipo.price_band_high,
    };
    let n = prices.len();
    assert(prices@[0].wf() && prices@[n - 1].wf());
    let first = prices[0].close_price;
    let last = prices[n - 1].close_price;
    let shown: usize = if n < 30 { n } else { 30 };
    let mut rows: Vec<PriceRow> = Vec::new();
    let mut k: usize = 0;
    while k < shown
        invariant
            k <= shown,
            shown == table_sessions(n as int),
            n == prices.len(),
            issue == application_price(*ipo),
            issue matches Some(x) ==> x.wf(),
            forall|i: int| 0 <= i < prices.len() ==> (#[trigger] prices@[i]).wf(),
            rows.len() == k,
            forall|q: int| 0 <= q < k ==> price_row_facts(prices@[n - 1 - q], issue, #[trigger] rows@[q]),
        decreases shown - k,
    {
        assert(prices@[n - 1 - k].wf());
        rows.push(price_row(&prices[n - 1 - k], issue));
        k = k + 1;
    }
    PerformanceView::Prices(
        Performance {
            issue_price: rupees_or_dash_of(issue),
            listing_close: rupees_or_dash_of(first),
            listing_gain: gain_of(issue, first),
            current_close: rupees_or_dash_of(last),
            current_gain: gain_of(issue, last),
            rows,
        },
    )
}

// ---------------------------------------------------------------------------
// The dossier: the price chart
// ---------------------------------------------------------------------------

/// The closes of the sessions that have one, in date order.
pub open spec fn closes_of(prices: Seq<crate::types::PricePoint>) -> Seq<Decimal>
    decreases prices.len(),
{
    if prices.len() == 0 {
        Seq::empty()
    } else {
        let rest = closes_of(prices.drop_last());
        match prices.last().close_price {
            Some(c) => rest.push(c),
            None => rest,
        }
    }
}

/// What the chart's vertical range must hold: the closes and the issue
/// price, when there is one.
pub open spec fn chart_points(prices: Seq<crate::types::PricePoint>, issue: Option<Decimal>) -> Seq<Decimal> {
    match issue {
        Some(r) => closes_of(prices).push(r),
        None => closes_of(prices),
    }
}

/// `x` is one of `pts` and none of them is smaller.
pub open spec fn is_lowest(pts: Seq<Decimal>, x: Decimal) -> bool {
    &&& pts.contains(x)
    &&& forall|i: int| 0 <= i < pts.len() ==> crate::decimal::value_order(x, #[trigger] pts[i]) <= 0
}

/// `x` is one of `pts` and none of them is larger.
pub open spec fn is_highest(pts: Seq<Decimal>, x: Decimal) -> bool {
    &&& pts.contains(x)
    &&& forall|i: int| 0 <= i < pts.len() ==> crate::decimal::value_order(#[trigger] pts[i], x) <= 0
}

/// The colour of the issue-price line: up when the last close is at or
/// above it (or there is no close yet), down below it, plain without an
/// issue price.
pub open spec fn reference_tone(closes: Seq<Decimal>, issue: Option<Decimal>) -> PriceTone {
    match issue {
        None => PriceTone::Plain,
        Some(r) => if closes.len() == 0 || crate::decimal::value_order(closes.last(), r) >= 0 {
            PriceTone::Up
        } else {
            PriceTone::Down
        },
    }
}

/// What the close-price chart plots: the closes in date order, the lowest
/// and highest of them and the issue price (none when there is nothing to
/// plot), and the colour of the issue-price line. Widening a flat range is
/// left to the drawing.
pub struct ChartOutline {
    pub closes: Vec<Decimal>,
    pub range: Option<(Decimal, Decimal)>,
    pub reference_tone: PriceTone,
}

fn extremes(pts: &Vec<Decimal>) -> (r: Option<(Decimal, Decimal)>)
    requires
        forall|i: int| 0 <= i < pts.len() ==> (#[trigger] pts@[i]).wf(),
    ensures
        pts.len() == 0 <==> r is None,
        r matches Some((lo, hi)) ==> is_lowest(pts@, lo) && is_highest(pts@, hi),
{
    if pts.len() == 0 {
        return None;
    }
    let mut lo: usize = 0;
    let mut hi: usize = 0;
    let mut k: usize = 1;
    while k < pts.len()
        invariant
            1 <= k <= pts.len(),
            lo < k,
            hi < k,
            forall|i: int| 0 <= i < pts.len() ==> (#[trigger] pts@[i]).wf(),
            forall|i: int| 0 <= i < k ==> crate::decimal::value_order(pts@[lo as int], #[trigger] pts@[i]) <= 0,
            forall|i: int| 0 <= i < k ==> crate::decimal::value_order(#[trigger] pts@[i], pts@[hi as int]) <= 0,
        decreases pts.len() - k,
    {
        let c = pts[k];
        assert(pts@[lo as int].wf() && pts@[hi as int].wf() && c.wf());
        if crate::decimal::compare(c, pts[lo]) < 0 {
            let old_lo = lo;
            lo = k;
            assert forall|i: int| 0 <= i < k + 1 implies crate::decimal::value_order(
                pts@[lo as int],
                #[trigger] pts@[i],
            ) <= 0 by {
                crate::decimal::lemma_value_order_laws(c, pts@[old_lo as int], pts@[i]);
                crate::decimal::lemma_value_order_laws(c, c, c);
            }
        } else {
            assert forall|i: int| 0 <= i < k + 1 implies crate::decimal::value_order(
                pts@[lo as int],
                #[trigger] pts@[i],
            ) <= 0 by {
                crate::decimal::lemma_value_order_laws(pts@[lo as int], c, pts@[i]);
            }
        }
        if crate::decimal::compare(pts[hi], c) < 0 {
            let old_hi = hi;
            hi = k;
            assert forall|i: int| 0 <= i < k + 1 implies crate::decimal::value_order(
                #[trigger] pts@[i],
                pts@[hi as int],
            ) <= 0 by {
                crate::decimal::lemma_value_order_laws(pts@[i], pts@[old_hi as int], c);
                crate::decimal::lemma_value_order_laws(c, c, c);
            }
        } else {
            assert forall|i: int| 0 <= i < k + 1 implies crate::decimal::value_order(
                #[trigger] pts@[i],
                pts@[hi as int],
            ) <= 0 by {
                crate::decimal::lemma_value_order_laws(c, pts@[hi as int], pts@[i]);
            }
        }
        k = k + 1;
    }
    assert(pts@.contains(pts@[lo as int]));
    assert(pts@.contains(pts@[hi as int]));
    Some((pts[lo], pts[hi]))
}

/// The close-price chart of the performance tab, for sessions in date
/// order and the issue price.
pub fn chart_outline(prices: &Vec<crate::types::PricePoint>, issue: Option<Decimal>) -> (o: ChartOutline)
    requires
        forall|i: int| 0 <= i < prices.len() ==> (#[trigger] prices@[i]).wf(),
        issue matches Some(x) ==> x.wf(),
    ensures
        o.closes@ == closes_of(prices@),
        chart_points(prices@, issue).len() == 0 <==> o.range is None,
        o.range matches Some((lo, hi)) ==> is_lowest(chart_points(prices@, issue), lo) && is_highest(
            chart_points(prices@, issue),
            hi,
        ),
        o.reference_tone == reference_tone(closes_of(prices@), issue),
{
    let mut closes: Vec<Decimal> = Vec::new();
    let mut k: usize = 0;
    while k < prices.len()
        invariant
            k <= prices.len(),
            forall|i: int| 0 <= i < prices.len() ==> (#[trigger] prices@[i]).wf(),
            closes@ == closes_of(prices@.subrange(0, k as int)),
            forall|i: int| 0 <= i < closes.len() ==> (#[trigger] closes@[i]).wf(),
        decreases prices.len() - k,
    {
        assert(prices@.subrange(0, k as int + 1).drop_last() == prices@.subrange(0, k as int));
        assert(prices@[k as int].wf());
        match prices[k].close_price {
            Some(c) => closes.push(c),
            None => {},
        }
        k = k + 1;
    }
    assert(prices@.subrange(0, prices.len() as int) == prices@);
    let tone = match issue {
        None => PriceTone::Plain,
        Some(r) => if closes.len() == 0 {
            PriceTone::Up
        } else {
            let last = closes[closes.len() - 1];
            assert(closes@[closes.len() - 1].wf());
            if crate::decimal::compare(last, r) >= 0 {
                PriceTone::Up
            } else {
                PriceTone::Down
            }
        },
    };
    let mut pts = closes.clone();
    assert(pts@ == closes@);
    match issue {
        Some(r) => pts.push(r),
        None => {},
    }
    let range = extremes(&pts);
    ChartOutline { closes, range, reference_tone: tone }
}

// ---------------------------------------------------------------------------
// Sync status lines
// ---------------------------------------------------------------------------

/// How a status line is coloured.
#[derive(Debug, Clone, Copy, PartialEq, Eq, Structural)]
pub enum StatusTone {
    Active,
    Error,
    Muted,
    Disabled,
}

/// What the shell knows of syncing: whether a run is in progress, the
/// last error, and how many seconds ago the last run succeeded.
pub struct SyncState {
    pub syncing: bool,
    pub last_error: Option<String>,
    pub synced_secs_ago: Option<u64>,
    pub last_calendar_at: Option<crate::date::DateTime>,
}

fn count_text(n: u64) -> (r: Vec<char>)
    ensures
        r@ == int_text(n as int),
{
    let mut digits = crate::format::digits_of(n as u128);
    if n == 0 {
        digits.push('0');
        assert(digits@ =~= seq!['0']);
    }
    digits
}

/// The title bar's sync line.
pub open spec fn titlebar_text(s: SyncState) -> Seq<char> {
    if s.syncing {
        "Syncing…"@
    } else if s.last_error is Some {
        "⚠ "@ + s.last_error->0@
    } else if s.synced_secs_ago is Some {
        let secs = s.synced_secs_ago->0;
        if secs < 90 {
            "Synced "@ + int_text(secs as int) + "s ago"@
        } else {
            "Synced "@ + int_text((secs / 60) as int) + "m ago"@
        }
    } else {
        "Not synced yet"@
    }
}

pub open spec fn titlebar_tone(s: SyncState) -> StatusTone {
    if s.syncing {
        StatusTone::Active
    } else if s.last_error is Some {
        StatusTone::Error
    } else {
        StatusTone::Muted
    }
}

/// The title bar's sync line and its colour.
pub fn titlebar_status(s: &SyncState) -> (r: (String, StatusTone))
    ensures
        r.0@ == titlebar_text(*s),
        r.1 == titlebar_tone(*s),
{
    if s.syncing {
        return ("Syncing…".to_owned(), StatusTone::Active);
    }
    match &s.last_error {
        Some(e) => {
            let mut v = chars_of("⚠ ");
            push_all(&mut v, e);
            return (string_from(&v), StatusTone::Error);
        },
        None => {},
    }
    match s.synced_secs_ago {
        Some(secs) => {
            let mut v = chars_of("Synced ");
            if secs < 90 {
                append(&mut v, &count_text(secs));
                append(&mut v, &chars_of("s ago"));
            } else {
                append(&mut v, &count_text(secs / 60));
                append(&mut v, &chars_of("m ago"));
            }
            (string_from(&v), StatusTone::Muted)
        },
        None => ("Not synced yet".to_owned(), StatusTone::Muted),
    }
}

/// The sidebar's sync line.
pub open spec fn sidebar_text(s: SyncState) -> Seq<char> {
    if s.syncing {
        "⟳ Syncing…"@
    } else if s.last_error is Some {
        "⚠ "@ + s.last_error->0@
    } else if s.synced_secs_ago is Some {
        "✓ Synced "@ + int_text((s.synced_secs_ago->0 / 60) as int) + "m ago"@
    } else {
        "Not synced"@
    }
}

pub open spec fn sidebar_tone(s: SyncState) -> StatusTone {
    if s.syncing {
        StatusTone::Active
    } else if s.last_error is Some {
        StatusTone::Error
    } else if s.synced_secs_ago is Some {
        StatusTone::Muted
    } else {
        StatusTone::Disabled
    }
}

/// The sidebar's sync line and its colour.
pub fn sidebar_status(s: &SyncState) -> (r: (String, StatusTone))
    ensures
        r.0@ == sidebar_text(*s),
        r.1 == sidebar_tone(*s),
{
    if s.syncing {
        return ("⟳ Syncing…".to_owned(), StatusTone::Active);
    }
    match &s.last_error {
        Some(e) => {
            let mut v = chars_of("⚠ ");
            push_all(&mut v, e);
            return (string_from(&v), StatusTone::Error);
        },
        None => {},
    }
    match s.synced_secs_ago {
        Some(secs) => {
            let mut v = chars_of("✓ Synced ");
            append(&mut v, &count_text(secs / 60));
            append(&mut v, &chars_of("m ago"));
            (string_from(&v), StatusTone::Muted)
        },
        None => ("Not synced".to_owned(), StatusTone::Disabled),
    }
}

/// The status bar's provenance line.
pub open spec fn statusbar_text(s: SyncState) -> Seq<char> {
    if s.syncing {
        "⟳ syncing…"@
    } else if s.last_error is Some {
        "⚠ "@ + s.last_error->0@
    } else if s.last_calendar_at is Some {
        "calendar "@ + crate::format::iso_date_text(s.last_calendar_at->0.date)
            + " · NSE + Chittorgarh + IPO Watch"@
    } else {
        "not synced"@
    }
}

/// The status bar's provenance line.
pub fn statusbar_status(s: &SyncState) -> (r: String)
    requires
        s.last_calendar_at matches Some(c) ==> c.wf(),
    ensures
        r@ == statusbar_text(*s),
{
    if s.syncing {
        return "⟳ syncing…".to_owned();
    }
    match &s.last_error {
        Some(e) => {
            let mut v = chars_of("⚠ ");
            push_all(&mut v, e);
            return string_from(&v);
        },
        None => {},
    }
    match s.last_calendar_at {
        Some(c) => {
            let mut v = chars_of("calendar ");
            push_all(&mut v, &crate::format::iso_date(c.date));
            append(&mut v, &chars_of(" · NSE + Chittorgarh + IPO Watch"));
            string_from(&v)
        },
        None => "not synced".to_owned(),
    }
}

// ---------------------------------------------------------------------------
// The command-line listing
// ---------------------------------------------------------------------------

/// `s` left-aligned in a field of `w` characters (never cut).
pub open spec fn pad_right(s: Seq<char>, w: nat) -> Seq<char> {
    if s.len() >= w {
        s
    } else {
        s + Seq::new((w - s.len()) as nat, |i: int| ' ')
    }
}

fn pad_to(v: &mut Vec<char>, s: &Vec<char>, w: usize)
    ensures
        final(v)@ == old(v)@ + pad_right(s@, w as nat),
{
    append(v, s);
    if s.len() < w {
        let ghost base = old(v)@ + s@;
        let mut k: usize = s.len();
        assert(v@ =~= base + Seq::new((k - s.len()) as nat, |i: int| ' '));
        while k < w
            invariant
                s.len() <= k <= w,
                v@ == base + Seq::new((k - s.len()) as nat, |i: int| ' '),
            decreases w - k,
        {
            v.push(' ');
            k = k + 1;
            assert(v@ =~= base + Seq::new((k - s.len()) as nat, |i: int| ' '));
        }
        assert(v@ =~= old(v)@ + pad_right(s@, w as nat));
    }
}

/// The price band as the listing writes it: "₹low - ₹high", "₹low", or
/// "-".
pub open spec fn listing_band(low: Option<Decimal>, high: Option<Decimal>) -> Seq<char> {
    match (low, high) {
        (Some(l), Some(h)) => seq!['₹'] + decimal_text(l) + seq![' ', '-', ' ', '₹'] + decimal_text(h),
        (Some(l), None) => seq!['₹'] + decimal_text(l),
        _ => seq!['-'],
    }
}

/// A date as the listing writes it, or "-".
pub open spec fn listing_date(d: Option<Date>) -> Seq<char> {
    match d {
        Some(x) => crate::format::iso_date_text(x),
        None => seq!['-'],
    }
}

/// Seven columns of the listing, each left-aligned in its width and
/// separated by single spaces.
pub open spec fn listing_columns(
    id: Seq<char>,
    company: Seq<char>,
    exch: Seq<char>,
    band: Seq<char>,
    status: Seq<char>,
    open: Seq<char>,
    close: Seq<char>,
) -> Seq<char> {
    pad_right(id, 4) + seq![' '] + pad_right(company, 28) + seq![' '] + pad_right(exch, 5) + seq![' ']
        + pad_right(band, 18) + seq![' '] + pad_right(status, 11) + seq![' '] + pad_right(open, 12)
        + seq![' '] + pad_right(close, 12)
}

/// The listing's header line.
pub open spec fn listing_header_text() -> Seq<char> {
    listing_columns("ID"@, "Company"@, "Exch"@, "Price Band"@, "Status"@, "Open Date"@, "Close Date"@)
}

/// One IPO's line of the listing: id, company, venue, band, status and
/// window, each left-aligned in its column.
pub open spec fn listing_line_text(ipo: Ipo) -> Seq<char> {
    let id = match ipo.id {
        Some(i) => int_text(i as int),
        None => Seq::empty(),
    };
    let exch = match ipo.exchange {
        Some(e) => e@,
        None => seq!['-'],
    };
    listing_columns(
        id,
        ipo.company_name@,
        exch,
        listing_band(ipo.price_band_low, ipo.price_band_high),
        crate::types::status_name(ipo.status),
        listing_date(ipo.open_date),
        listing_date(ipo.close_date),
    )
}

fn columns_line(
    id: &Vec<char>,
    company: &Vec<char>,
    exch: &Vec<char>,
    band: &Vec<char>,
    status: &Vec<char>,
    open: &Vec<char>,
    close: &Vec<char>,
) -> (r: String)
    ensures
        r@ == listing_columns(id@, company@, exch@, band@, status@, open@, close@),
{
    let mut v: Vec<char> = Vec::new();
    pad_to(&mut v, id, 4);
    v.push(' ');
    pad_to(&mut v, company, 28);
    v.push(' ');
    pad_to(&mut v, exch, 5);
    v.push(' ');
    pad_to(&mut v, band, 18);
    v.push(' ');
    pad_to(&mut v, status, 11);
    v.push(' ');
    pad_to(&mut v, open, 12);
    v.push(' ');
    pad_to(&mut v, close, 12);
    assert(v@ =~= listing_columns(id@, company@, exch@, band@, status@, open@, close@));
    string_from(&v)
}

/// The header line of the command-line listing.
pub fn listing_header() -> (r: String)
    ensures
        r@ == listing_header_text(),
{
    columns_line(
        &chars_of("ID"),
        &chars_of("Company"),
        &chars_of("Exch"),
        &chars_of("Price Band"),
        &chars_of("Status"),
        &chars_of("Open Date"),
        &chars_of("Close Date"),
    )
}

/// A rule of dashes as long as `line`.
pub fn rule_under(line: &String) -> (r: String)
    ensures
        r@ == Seq::new(line@.len(), |i: int| '-'),
{
    let n = chars_of(line.as_str()).len();
    let mut v: Vec<char> = Vec::new();
    while v.len() < n
        invariant
            v.len() <= n,
            n == line@.len(),
            v@ == Seq::new(v.len() as nat, |i: int| '-'),
        decreases n - v.len(),
    {
        v.push('-');
        assert(v@ =~= Seq::new(v.len() as nat, |i: int| '-'));
    }
    string_from(&v)
}

fn listing_band_of(low: Option<Decimal>, high: Option<Decimal>) -> (r: Vec<char>)
    requires
        low matches Some(x) ==> x.wf(),
        high matches Some(x) ==> x.wf(),
    ensures
        r@ == listing_band(low, high),
{
    let mut v: Vec<char> = Vec::new();
    match (low, high) {
        (Some(l), Some(h)) => {
            v.push('₹');
            append(&mut v, &crate::format::decimal_text_of(l));
            v.push(' ');
            v.push('-');
            v.push(' ');
            v.push('₹');
            append(&mut v, &crate::format::decimal_text_of(h));
        },
        (Some(l), None) => {
            v.push('₹');
            append(&mut v, &crate::format::decimal_text_of(l));
        },
        _ => {
            v.push('-');
        },
    }
    assert(v@ =~= listing_band(low, high));
    v
}

fn listing_date_of(d: Option<Date>) -> (r: Vec<char>)
    requires
        d matches Some(x) ==> x.wf(),
    ensures
        r@ == listing_date(d),
{
    match d {
        Some(x) => chars_of(crate::format::iso_date(x).as_str()),
        None => {
            let mut v: Vec<char> = Vec::new();
            v.push('-');
            assert(v@ =~= seq!['-']);
            v
        },
    }
}

/// One IPO's line of the command-line listing.
pub fn listing_line(ipo: &Ipo) -> (r: String)
    requires
        ipo.wf(),
    ensures
        r@ == listing_line_text(*ipo),
{
    let id: Vec<char> = match ipo.id {
        Some(i) => crate::format::int_text_of(i),
        None => Vec::new(),
    };
    let exch: Vec<char> = match &ipo.exchange {
        Some(e) => chars_of(e.as_str()),
        None => {
            let mut v: Vec<char> = Vec::new();
            v.push('-');
            assert(v@ =~= seq!['-']);
            v
        },
    };
    assert(id@ == match ipo.id {
        Some(i) => int_text(i as int),
        None => Seq::<char>::empty(),
    });
    columns_line(
        &id,
        &chars_of(ipo.company_name.as_str()),
        &exch,
        &listing_band_of(ipo.price_band_low, ipo.price_band_high),
        &chars_of(ipo.status.as_str()),
        &listing_date_of(ipo.open_date),
        &listing_date_of(ipo.close_date),
    )
}

// ---------------------------------------------------------------------------
// List and dossier controls
// ---------------------------------------------------------------------------

/// The status filters offered above the list, in order: all, then each
/// live status.
pub open spec fn pill_filter(k: int) -> Option<IpoStatus> {
    if k == 0 {
        None
    } else if k == 1 {
        Some(IpoStatus::Upcoming)
    } else if k == 2 {
        Some(IpoStatus::Open)
    } else if k == 3 {
        Some(IpoStatus::Closed)
    } else {
        Some(IpoStatus::Listed)
    }
}

pub open spec fn pill_label(k: int) -> Seq<char> {
    if k == 0 {
        "All"@
    } else if k == 1 {
        "Upcoming"@
    } else if k == 2 {
        "Open"@
    } else if k == 3 {
        "Closed"@
    } else {
        "Listed"@
    }
}

/// One filter pill: its filter, its label, and whether it is the active one.
pub struct Pill {
    pub filter: Option<IpoStatus>,
    pub label: String,
    pub selected: bool,
}

/// The five filter pills, the one equal to `current` selected.
pub fn status_pills(current: Option<IpoStatus>) -> (r: Vec<Pill>)
    ensures
        r.len() == 5,
        forall|k: int|
            0 <= k < 5 ==> {
                let p = #[trigger] r@[k];
                &&& p.filter == pill_filter(k)
                &&& p.label@ == pill_label(k)
                &&& p.selected == (current == pill_filter(k))
            },
{
    let mut r: Vec<Pill> = Vec::new();
    let filters = [
        (None, "All"),
        (Some(IpoStatus::Upcoming), "Upcoming"),
        (Some(IpoStatus::Open), "Open"),
        (Some(IpoStatus::Closed), "Closed"),
        (Some(IpoStatus::Listed), "Listed"),
    ];
    let mut k: usize = 0;
    while k < 5
        invariant
            k <= 5,
            filters@ == seq![
                (None, "All"),
                (Some(IpoStatus::Upcoming), "Upcoming"),
                (Some(IpoStatus::Open), "Open"),
                (Some(IpoStatus::Closed), "Closed"),
                (Some(IpoStatus::Listed), "Listed"),
            ],
            r.len() == k,
            forall|q: int|
                0 <= q < k ==> {
                    let p = #[trigger] r@[q];
                    &&& p.filter == pill_filter(q)
                    &&& p.label@ == pill_label(q)
                    &&& p.selected == (current == pill_filter(q))
                },
        decreases 5 - k,
    {
        let (filter, label) = filters[k];
        let selected = match (current, filter) {
            (Some(a), Some(b)) => a == b,
            (None, None) => true,
            _ => false,
        };
        r.push(Pill { filter, label: label.to_owned(), selected });
        k = k + 1;
    }
    r
}

/// What the list shows when nothing matches: a note about the search when
/// there is one, else about the filter.
pub fn empty_list_note(search: &str) -> (r: &'static str)
    ensures
        r@ == if search@.len() == 0 {
            "No IPOs match the current filter."@
        } else {
            "No IPOs match the search."@
        },
{
    if chars_of(search).len() == 0 {
        "No IPOs match the current filter."
    } else {
        "No IPOs match the search."
    }
}

/// The header label of a list column.
pub open spec fn column_label(col: SortCol) -> Seq<char> {
    match col {
        SortCol::Name => "Company"@,
        SortCol::Status => "Status"@,
        SortCol::Band => "Band"@,
        SortCol::Lot => "Lot"@,
        SortCol::IssueSize => "Size (Cr)"@,
        SortCol::Subscription => "Sub ×"@,
        SortCol::OpenDate => "Open → Close"@,
    }
}

/// A column header: its label, with an arrow on the sorted column.
pub open spec fn header_text(col: SortCol, sort_col: SortCol, dir: SortDir) -> Seq<char> {
    if col == sort_col {
        match dir {
            SortDir::Asc => column_label(col) + " ↑"@,
            SortDir::Desc => column_label(col) + " ↓"@,
        }
    } else {
        column_label(col)
    }
}

fn column_label_of(col: SortCol) -> (r: &'static str)
    ensures
        r@ == column_label(col),
{
    match col {
        SortCol::Name => "Company",
        SortCol::Status => "Status",
        SortCol::Band => "Band",
        SortCol::Lot => "Lot",
        SortCol::IssueSize => "Size (Cr)",
        SortCol::Subscription => "Sub ×",
        SortCol::OpenDate => "Open → Close",
    }
}

/// The header of column `col` while the list is sorted by `sort_col`.
pub fn column_header(col: SortCol, sort_col: SortCol, dir: SortDir) -> (r: String)
    ensures
        r@ == header_text(col, sort_col, dir),
{
    let mut v = chars_of(column_label_of(col));
    if col == sort_col {
        match dir {
            SortDir::Asc => append(&mut v, &chars_of(" ↑")),
            SortDir::Desc => append(&mut v, &chars_of(" ↓")),
        }
    }
    string_from(&v)
}

/// The sort after a click on column `clicked`: the same column flips its
/// direction; another column sorts ascending.
pub open spec fn sort_after_click(col: SortCol, dir: SortDir, clicked: SortCol) -> (SortCol, SortDir) {
    if clicked == col {
        (
            col,
            match dir {
                SortDir::Asc => SortDir::Desc,
                SortDir::Desc => SortDir::Asc,
            },
        )
    } else {
        (clicked, SortDir::Asc)
    }
}

/// The sort after a click on a column header.
pub fn click_header(col: SortCol, dir: SortDir, clicked: SortCol) -> (r: (SortCol, SortDir))
    ensures
        r == sort_after_click(col, dir, clicked),
{
    if clicked == col {
        (
            col,
            match dir {
                SortDir::Asc => SortDir::Desc,
                SortDir::Desc => SortDir::Asc,
            },
        )
    } else {
        (clicked, SortDir::Asc)
    }
}

/// Two clicks on the same header restore the sort; a click on another
/// column always starts it ascending.
pub proof fn lemma_header_clicks(col: SortCol, dir: SortDir, clicked: SortCol)
    ensures
        ({
            let once = sort_after_click(col, dir, col);
            sort_after_click(once.0, once.1, col) == (col, dir)
        }),
        clicked != col ==> sort_after_click(col, dir, clicked) == (clicked, SortDir::Asc),
{
}

/// The dossier tabs in order, each with its label and whether it is open.
pub open spec fn tab_at(k: int) -> DetailTab {
    if k == 0 {
        DetailTab::Overview
    } else if k == 1 {
        DetailTab::Subscription
    } else if k == 2 {
        DetailTab::Performance
    } else {
        DetailTab::Docs
    }
}

pub open spec fn tab_label(t: DetailTab) -> Seq<char> {
    match t {
        DetailTab::Overview => "Overview"@,
        DetailTab::Subscription => "Subscription"@,
        DetailTab::Performance => "Performance"@,
        DetailTab::Docs => "Docs"@,
    }
}

fn tab_label_of(t: DetailTab) -> (r: &'static str)
    ensures
        r@ == tab_label(t),
{
    match t {
        DetailTab::Overview => "Overview",
        DetailTab::Subscription => "Subscription",
        DetailTab::Performance => "Performance",
        DetailTab::Docs => "Docs",
    }
}

fn tab_at_of(k: usize) -> (t: DetailTab)
    requires
        k < 4,
    ensures
        t == tab_at(k as int),
{
    if k == 0 {
        DetailTab::Overview
    } else if k == 1 {
        DetailTab::Subscription
    } else if k == 2 {
        DetailTab::Performance
    } else {
        DetailTab::Docs
    }
}

/// The tab bar: the four tabs, the open one selected.
pub fn tab_bar(open: DetailTab) -> (r: Vec<(DetailTab, String, bool)>)
    ensures
        r.len() == 4,
        forall|k: int|
            0 <= k < 4 ==> {
                let t = #[trigger] r@[k];
                &&& t.0 == tab_at(k)
                &&& t.1@ == tab_label(tab_at(k))
                &&& t.2 == (open == tab_at(k))
            },
{
    let mut r: Vec<(DetailTab, String, bool)> = Vec::new();
    let mut k: usize = 0;
    while k < 4
        invariant
            k <= 4,
            r.len() == k,
            forall|q: int|
                0 <= q < k ==> {
                    let t = #[trigger] r@[q];
                    &&& t.0 == tab_at(q)
                    &&& t.1@ == tab_label(tab_at(q))
                    &&& t.2 == (open == tab_at(q))
                },
        decreases 4 - k,
    {
        let t = tab_at_of(k);
        r.push((t, tab_label_of(t).to_owned(), open == t));
        k = k + 1;
    }
    r
}

/// The sidebar navigation: the four dossier sections and "IPO List" (which
/// opens the overview); the first entry is never highlighted, and the list
/// entry is highlighted along with the overview.
pub fn sidebar_items(open: DetailTab) -> (r: Vec<(DetailTab, String, bool)>)
    ensures
        r.len() == 5,
        forall|k: int|
            0 <= k < 4 ==> {
                let t = #[trigger] r@[k];
                &&& t.0 == tab_at(k)
                &&& t.1@ == tab_label(tab_at(k))
                &&& t.2 == (k > 0 && open == tab_at(k))
            },
        r@[4].0 == DetailTab::Overview,
        r@[4].1@ == "IPO List"@,
        r@[4].2 == (open == DetailTab::Overview),
{
    let mut r = tab_bar(open);
    let first = r.remove(0);
    r.insert(0, (first.0, first.1, false));
    r.push((DetailTab::Overview, "IPO List".to_owned(), open == DetailTab::Overview));
    r
}

/// The stat strip over the list: the count of each live status.
pub fn stat_strip(counts: &StatusCounts) -> (r: Vec<(String, String)>)
    ensures
        r.len() == 4,
        r@[0].0@ == "Upcoming"@ && r@[0].1@ == int_text(counts.upcoming as int),
        r@[1].0@ == "Open"@ && r@[1].1@ == int_text(counts.open as int),
        r@[2].0@ == "Closed"@ && r@[2].1@ == int_text(counts.closed as int),
        r@[3].0@ == "Listed"@ && r@[3].1@ == int_text(counts.listed as int),
{
    let mut r: Vec<(String, String)> = Vec::new();
    r.push(("Upcoming".to_owned(), string_from(&crate::format::int_text_of(counts.upcoming))));
    r.push(("Open".to_owned(), string_from(&crate::format::int_text_of(counts.open))));
    r.push(("Closed".to_owned(), string_from(&crate::format::int_text_of(counts.closed))));
    r.push(("Listed".to_owned(), string_from(&crate::format::int_text_of(counts.listed))));
    r
}

/// Whether the selection survives a refresh: kept when the IPO is in the
/// refreshed list or still stored; cleared otherwise.
pub fn selection_after_refresh(selected: Option<i64>, in_list: bool, still_stored: bool) -> (r: Option<i64>)
    ensures
        r == (if selected is Some && !in_list && !still_stored { None } else { selected }),
{
    match selected {
        Some(id) => if in_list || still_stored {
            Some(id)
        } else {
            None
        },
        None => None,
    }
}

fn gain_computable(issue: Option<Decimal>, close: Option<Decimal>) -> (r: bool)
    requires
        issue matches Some(x) ==> x.wf(),
        close matches Some(x) ==> x.wf(),
    ensures
        r == gain_fits(issue, close),
{
    match (issue, close) {
        (Some(i), Some(c)) => {
            if i.mantissa == 0 {
                return true;
            }
            if !crate::format::pct_change_computable(i, c) {
                return false;
            }
            match crate::format::pct_change(i, c) {
                Some(g) => crate::decimal::checked_mul(
                    g,
                    Decimal { negative: false, mantissa: 100, scale: 0 },
                ).is_some(),
                None => false,
            }
        },
        _ => true,
    }
}

/// The performance tab, or `None` when a headline gain overflows.
pub fn performance_checked(ipo: &Ipo, prices: &Vec<crate::types::PricePoint>) -> (r: Option<PerformanceView>)
    requires
        ipo.wf(),
        forall|i: int| 0 <= i < prices.len() ==> (#[trigger] prices@[i]).wf(),
    ensures
        r is Some <==> performance_fits(*ipo, prices@),
        r matches Some(v) ==> performance_facts(*ipo, prices@, v),
{
    if prices.len() > 0 {
        let issue = match ipo.final_price {
            Some(p) => Some(p),
            None => ipo.price_band_high,
        };
        let n = prices.len();
        assert(prices@[0].wf() && prices@[n - 1].wf());
        if !gain_computable(issue, prices[0].close_price) || !gain_computable(issue, prices[n - 1].close_price) {
            return None;
        }
    }
    Some(performance(ipo, prices))
}

} // verus!

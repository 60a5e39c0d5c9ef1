//! NSE: the exchange's JSON API — the IPO calendar, the per-issue detail
//! (issue facts and the live subscription table) and the date format its
//! history endpoint expects.

use vstd::prelude::*;

use crate::chittorgarh::opt_text;
use crate::date::Date;
use crate::decimal::{decimal_from_str_exact, parse_decimal_exact, Decimal};
use crate::error::Error;
use crate::format::{digit_char, int_text, int_text_of};
use crate::json::{
    elements_of, get, get_array, get_str, member, member_of, str_or_empty, text_of, text_or_empty,
    JsonValue,
};
use crate::parse_util::{
    band_in, day_month_year, int_in, lot_in, parse_band_chars, parse_day_month_year, parse_int,
    parse_lot, parse_period_chars, parse_rupees_chars, period_in, rupees_in,
};
use crate::text::{
    chars_of, is_ws_sep, lower_seq, lower_vec, string_from, tokens, trim, trim_str, vec_eq_str,
    words_vec,
};
use crate::types::{
    category_from_label, derived_status, fresh_ipo, Ipo, IpoStatus, SubCategory,
    SubscriptionSnapshot,
};

verus! {

// ---------------------------------------------------------------------------
// Dates for the history endpoint
// ---------------------------------------------------------------------------

/// Two decimal digits of `n` (below 100), zero-padded.
pub open spec fn two_digits(n: int) -> Seq<char> {
    seq![digit_char((n / 10) as nat), digit_char((n % 10) as nat)]
}

/// "DD-MM-YYYY", day and month zero-padded.
pub open spec fn nse_date_text(d: Date) -> Seq<char> {
    two_digits(d.day as int) + "-"@ + two_digits(d.month as int) + "-"@ + int_text(d.year as int)
}

fn push_two_digits(out: &mut Vec<char>, n: i8)
    requires
        0 <= n < 100,
    ensures
        final(out)@ == old(out)@ + two_digits(n as int),
{
    let tens: u8 = (n / 10) as u8;
    let ones: u8 = (n % 10) as u8;
    out.push((48u8 + tens) as char);
    out.push((48u8 + ones) as char);
    assert(final(out)@ =~= old(out)@ + two_digits(n as int));
}

/// "04-08-2026" — the date format NSE endpoints expect.
pub fn fmt_nse_date(d: Date) -> (r: String)
    requires
        d.wf(),
    ensures
        r@ == nse_date_text(d),
{
    let mut out: Vec<char> = Vec::new();
    push_two_digits(&mut out, d.day);
    out.push('-');
    push_two_digits(&mut out, d.month);
    out.push('-');
    let y = int_text_of(d.year as i64);
    let ghost before = out@;
    let mut i: usize = 0;
    while i < y.len()
        invariant
            i <= y.len(),
            out@ == before + y@.take(i as int),
        decreases y.len() - i,
    {
        out.push(y[i]);
        i = i + 1;
        assert(out@ =~= before + y@.take(i as int));
    }
    assert(y@.take(y.len() as int) =~= y@);
    proof {
        reveal_strlit("-");
    }
    assert(out@ =~= nse_date_text(d));
    string_from(&out)
}

// ---------------------------------------------------------------------------
// The IPO calendar
// ---------------------------------------------------------------------------

/// The date a text names (day, month name, year), when it is present.
pub open spec fn date_of(t: Option<Seq<char>>) -> Option<Date> {
    match t {
        Some(s) => day_month_year(s),
        None => None,
    }
}

/// The leading integer of a text, when it is present.
pub open spec fn int_of(t: Option<Seq<char>>) -> Option<i64> {
    match t {
        Some(s) => int_in(s),
        None => None,
    }
}

/// The price band a text gives, when it is present.
pub open spec fn band_of(t: Option<Seq<char>>) -> Option<(Decimal, Decimal)> {
    match t {
        Some(s) => band_in(s),
        None => None,
    }
}

pub open spec fn low_of(b: Option<(Decimal, Decimal)>) -> Option<Decimal> {
    match b {
        Some((l, _)) => Some(l),
        None => None,
    }
}

pub open spec fn high_of(b: Option<(Decimal, Decimal)>) -> Option<Decimal> {
    match b {
        Some((_, h)) => Some(h),
        None => None,
    }
}

/// The company named by a calendar row, trimmed.
pub open spec fn calendar_company(row: JsonValue) -> Seq<char> {
    trim(text_or_empty(row, "companyName"@))
}

/// A calendar row is kept when it is a mainboard issue (series "EQ") with a
/// company name.
pub open spec fn calendar_keeps(row: JsonValue) -> bool {
    text_or_empty(row, "series"@) == "EQ"@ && calendar_company(row).len() > 0
}

/// The kept calendar rows, in order.
pub open spec fn calendar_kept(rows: Seq<JsonValue>) -> Seq<JsonValue>
    decreases rows.len(),
{
    if rows.len() == 0 {
        Seq::empty()
    } else if calendar_keeps(rows.last()) {
        calendar_kept(rows.drop_last()).push(rows.last())
    } else {
        calendar_kept(rows.drop_last())
    }
}

/// The record a kept calendar row gives for `today`: a fresh record from
/// source "nse" with the row's symbol, window, share count and band, and the
/// status the window derives.
pub open spec fn calendar_record(row: JsonValue, today: Date, ipo: Ipo) -> bool {
    let open = date_of(text_of(member(row, "issueStartDate"@)));
    let close = date_of(text_of(member(row, "issueEndDate"@)));
    let band = band_of(text_of(member(row, "issuePrice"@)));
    &&& fresh_ipo(
        calendar_company(row),
        "nse"@,
        Ipo {
            symbol: None,
            open_date: None,
            close_date: None,
            shares_offered: None,
            price_band_low: None,
            price_band_high: None,
            status: IpoStatus::Upcoming,
            ..ipo
        },
    )
    &&& opt_text(ipo.symbol) == text_of(member(row, "symbol"@))
    &&& ipo.open_date == open
    &&& ipo.close_date == close
    &&& ipo.shares_offered == int_of(text_of(member(row, "issueSize"@)))
    &&& ipo.price_band_low == low_of(band)
    &&& ipo.price_band_high == high_of(band)
    &&& ipo.status == derived_status(open, close, None, today)
}

/// `out` holds one record per kept row, in order.
pub open spec fn calendar_ipos(rows: Seq<JsonValue>, today: Date, out: Seq<Ipo>) -> bool {
    let kept = calendar_kept(rows);
    &&& out.len() == kept.len()
    &&& forall|i: int| 0 <= i < out.len() ==> calendar_record(kept[i], today, #[trigger] out[i])
}

fn opt_string(o: Option<&String>) -> (r: Option<String>)
    ensures
        match o {
            Some(s) => r matches Some(t) && t@ == s@,
            None => r is None,
        },
{
    match o {
        Some(s) => Some(s.clone()),
        None => None,
    }
}

fn opt_date(o: Option<&String>) -> (r: Option<Date>)
    ensures
        r == date_of(
            match o {
                Some(s) => Some(s@),
                None => None,
            },
        ),
{
    match o {
        Some(s) => parse_day_month_year(s.as_str()),
        None => None,
    }
}

fn calendar_ipo(row: &JsonValue, today: Date) -> (r: Option<Ipo>)
    ensures
        match r {
            Some(ipo) => calendar_keeps(*row) && calendar_record(*row, today, ipo),
            None => !calendar_keeps(*row),
        },
{
    let series = str_or_empty(row, "series");
    let eq = "EQ".to_owned();
    if !(series == eq) {
        return None;
    }
    let raw = str_or_empty(row, "companyName");
    let trimmed = trim_str(raw.as_str());
    if trimmed.len() == 0 {
        return None;
    }
    let company = string_from(&trimmed);
    let mut ipo = Ipo::new(company.as_str(), "nse");
    ipo.symbol = opt_string(get_str(row, "symbol"));
    ipo.open_date = opt_date(get_str(row, "issueStartDate"));
    ipo.close_date = opt_date(get_str(row, "issueEndDate"));
    ipo.shares_offered = match get_str(row, "issueSize") {
        Some(s) => parse_int(s.as_str()),
        None => None,
    };
    match get_str(row, "issuePrice") {
        Some(s) => {
            match parse_band_chars(&chars_of(s.as_str())) {
                Some((low, high)) => {
                    ipo.price_band_low = Some(low);
                    ipo.price_band_high = Some(high);
                },
                None => {},
            }
        },
        None => {},
    }
    ipo.derive_status(today);
    Some(ipo)
}

/// What parsing a calendar document gives: its mainboard rows as records
/// when it is an array, else the error "calendar: expected array".
pub open spec fn calendar_result(doc: JsonValue, today: Date, r: Result<Vec<Ipo>, Error>) -> bool {
    match doc {
        JsonValue::Array(rows) => r matches Ok(v) && calendar_ipos(rows@, today, v@),
        _ => r matches Err(Error::Parse(m)) && m@ == "calendar: expected array"@,
    }
}

/// The parse error for a JSON text that does not parse: `what`, " JSON: "
/// and the parser's message.
pub open spec fn json_error(r_msg: Seq<char>, what: Seq<char>, parser: Seq<char>) -> bool {
    r_msg == what + " JSON: "@ + parser
}

fn json_parse_error(what: &str, parser: &String) -> (e: Error)
    ensures
        e matches Error::Parse(m) && json_error(m@, what@, parser@),
{
    let mut v = chars_of(what);
    crate::format::append(&mut v, &chars_of(" JSON: "));
    crate::format::append(&mut v, &chars_of(parser.as_str()));
    Error::Parse(string_from(&v))
}

/// Parse the `all-upcoming-issues` JSON text into IPO records: mainboard
/// rows only (series "EQ"), status derived from the dates for `today`.
pub fn parse_calendar(json: &str, today: Date) -> (r: Result<Vec<Ipo>, Error>)
    ensures
        match crate::json::json_document(json@) {
            Ok(doc) => calendar_result(doc, today, r),
            Err(m) => r matches Err(Error::Parse(t)) && json_error(t@, "calendar"@, m),
        },
{
    match crate::json::parse_json(json) {
        Ok(doc) => parse_calendar_doc(&doc, today),
        Err(m) => Err(json_parse_error("calendar", &m)),
    }
}

/// Parse the `all-upcoming-issues` document into IPO records: mainboard
/// rows only (series "EQ"), status derived from the dates for `today`.
pub fn parse_calendar_doc(doc: &JsonValue, today: Date) -> (r: Result<Vec<Ipo>, Error>)
    ensures
        calendar_result(*doc, today, r),
{
    let rows = match doc {
        JsonValue::Array(rows) => rows,
        _ => {
            return Err(Error::parse("calendar: expected array"));
        },
    };
    let mut out: Vec<Ipo> = Vec::new();
    let mut i: usize = 0;
    while i < rows.len()
        invariant
            i <= rows.len(),
            calendar_ipos(rows@.take(i as int), today, out@),
        decreases rows.len() - i,
    {
        let ghost pre = rows@.take(i as int);
        assert(rows@.take(i + 1).drop_last() =~= pre);
        assert(rows@.take(i + 1).last() == rows@[i as int]);
        match calendar_ipo(&rows[i], today) {
            Some(ipo) => {
                out.push(ipo);
                assert(calendar_kept(rows@.take(i + 1)) == calendar_kept(pre).push(rows@[i as int]));
            },
            None => {},
        }
        i = i + 1;
    }
    assert(rows@.take(rows.len() as int) =~= rows@);
    Ok(out)
}

// ---------------------------------------------------------------------------
// The issue detail
// ---------------------------------------------------------------------------

/// The issue facts an `ipo-detail` document's `issueInfo.dataList` sets.
pub struct NseFacts {
    pub symbol: Option<Seq<char>>,
    pub open_date: Option<Date>,
    pub close_date: Option<Date>,
    pub price_band_low: Option<Decimal>,
    pub price_band_high: Option<Decimal>,
    pub face_value: Option<Decimal>,
    pub lot_size: Option<i64>,
    pub lot_multiples: Option<i64>,
    pub issue_type: Option<Seq<char>>,
    pub rhp_url: Option<Seq<char>>,
}

pub open spec fn no_facts() -> NseFacts {
    NseFacts {
        symbol: None,
        open_date: None,
        close_date: None,
        price_band_low: None,
        price_band_high: None,
        face_value: None,
        lot_size: None,
        lot_multiples: None,
        issue_type: None,
        rhp_url: None,
    }
}

/// The first rupee amount among the words.
pub open spec fn first_rupees(words: Seq<Seq<char>>) -> Option<Decimal>
    decreases words.len(),
{
    if words.len() == 0 {
        None
    } else {
        match rupees_in(words[0]) {
            Some(d) => Some(d),
            None => first_rupees(words.drop_first()),
        }
    }
}

/// What one `{title, value}` item sets, both trimmed: the symbol, the issue
/// period, the price range, the face value (the first rupee amount among
/// its words), the bid lot, the issue type and the prospectus link; other
/// titles, and values that do not parse, set nothing.
pub open spec fn nse_fact(f: NseFacts, item: JsonValue, today: Date) -> NseFacts {
    let title = trim(text_or_empty(item, "title"@));
    let value = trim(text_or_empty(item, "value"@));
    if title == "Symbol"@ {
        NseFacts { symbol: Some(value), ..f }
    } else if title == "Issue Period"@ {
        match period_in(value, today) {
            Some((o, c)) => NseFacts { open_date: Some(o), close_date: Some(c), ..f },
            None => f,
        }
    } else if title == "Price Range"@ {
        match band_in(value) {
            Some((l, h)) => NseFacts { price_band_low: Some(l), price_band_high: Some(h), ..f },
            None => f,
        }
    } else if title == "Face Value"@ {
        match first_rupees(tokens(value, |c: char| is_ws_sep(c))) {
            Some(fv) => NseFacts { face_value: Some(fv), ..f },
            None => f,
        }
    } else if title == "Bid Lot"@ {
        match lot_in(value) {
            Some((m, k)) => NseFacts { lot_size: Some(m), lot_multiples: Some(k), ..f },
            None => f,
        }
    } else if title == "Issue Type"@ {
        NseFacts { issue_type: Some(value), ..f }
    } else if title == "Red Herring Prospectus"@ {
        NseFacts { rhp_url: Some(value), ..f }
    } else {
        f
    }
}

/// The facts the items set, applied in order (a later item wins).
pub open spec fn nse_facts(items: Seq<JsonValue>, today: Date) -> NseFacts
    decreases items.len(),
{
    if items.len() == 0 {
        no_facts()
    } else {
        nse_fact(nse_facts(items.drop_last(), today), items.last(), today)
    }
}

/// The facts a record holds.
pub open spec fn ipo_facts(ipo: Ipo) -> NseFacts {
    NseFacts {
        symbol: opt_text(ipo.symbol),
        open_date: ipo.open_date,
        close_date: ipo.close_date,
        price_band_low: ipo.price_band_low,
        price_band_high: ipo.price_band_high,
        face_value: ipo.face_value,
        lot_size: ipo.lot_size,
        lot_multiples: ipo.lot_multiples,
        issue_type: opt_text(ipo.issue_type),
        rhp_url: opt_text(ipo.rhp_url),
    }
}

/// A fresh "nse" record for `company` carrying exactly `facts`.
pub open spec fn detail_record(company: Seq<char>, facts: NseFacts, ipo: Ipo) -> bool {
    &&& fresh_ipo(
        company,
        "nse"@,
        Ipo {
            symbol: None,
            open_date: None,
            close_date: None,
            price_band_low: None,
            price_band_high: None,
            face_value: None,
            lot_size: None,
            lot_multiples: None,
            issue_type: None,
            rhp_url: None,
            ..ipo
        },
    )
    &&& ipo_facts(ipo) == facts
}

/// The items of `issueInfo.dataList`, when the document has that array.
pub open spec fn issue_items(doc: JsonValue) -> Option<Seq<JsonValue>> {
    elements_of(member_of(member(doc, "issueInfo"@), "dataList"@))
}

fn first_rupees_vec(words: &Vec<Vec<char>>) -> (r: Option<Decimal>)
    ensures
        r == first_rupees(words@.map_values(|w: Vec<char>| w@)),
{
    let ghost g = words@.map_values(|w: Vec<char>| w@);
    assert(g.skip(0) =~= g);
    let mut i: usize = 0;
    while i < words.len()
        invariant
            i <= words.len(),
            g == words@.map_values(|w: Vec<char>| w@),
            first_rupees(g) == first_rupees(g.skip(i as int)),
        decreases words.len() - i,
    {
        assert(g.skip(i as int)[0] == words@[i as int]@);
        assert(g.skip(i as int).drop_first() =~= g.skip(i + 1));
        match parse_rupees_chars(&words[i]) {
            Some(d) => {
                return Some(d);
            },
            None => {},
        }
        i = i + 1;
    }
    assert(g.skip(words.len() as int) =~= Seq::<Seq<char>>::empty());
    None
}

fn apply_fact(ipo: &mut Ipo, item: &JsonValue, today: Date)
    ensures
        ipo_facts(*final(ipo)) == nse_fact(ipo_facts(*old(ipo)), *item, today),
        *final(ipo) == (Ipo {
            symbol: final(ipo).symbol,
            open_date: final(ipo).open_date,
            close_date: final(ipo).close_date,
            price_band_low: final(ipo).price_band_low,
            price_band_high: final(ipo).price_band_high,
            face_value: final(ipo).face_value,
            lot_size: final(ipo).lot_size,
            lot_multiples: final(ipo).lot_multiples,
            issue_type: final(ipo).issue_type,
            rhp_url: final(ipo).rhp_url,
            ..*old(ipo)
        }),
{
    let title_raw = str_or_empty(item, "title");
    let value_raw = str_or_empty(item, "value");
    let title = trim_str(title_raw.as_str());
    let value = trim_str(value_raw.as_str());
    if vec_eq_str(&title, "Symbol") {
        ipo.symbol = Some(string_from(&value));
    } else if vec_eq_str(&title, "Issue Period") {
        match parse_period_chars(&value, today) {
            Some((o, c)) => {
                ipo.open_date = Some(o);
                ipo.close_date = Some(c);
            },
            None => {},
        }
    } else if vec_eq_str(&title, "Price Range") {
        match parse_band_chars(&value) {
            Some((l, h)) => {
                ipo.price_band_low = Some(l);
                ipo.price_band_high = Some(h);
            },
            None => {},
        }
    } else if vec_eq_str(&title, "Face Value") {
        let words = words_vec(&value);
        assert(words@.map_values(|w: Vec<char>| w@) =~= tokens(value@, |c: char| is_ws_sep(c)));
        match first_rupees_vec(&words) {
            Some(fv) => {
                ipo.face_value = Some(fv);
            },
            None => {},
        }
    } else if vec_eq_str(&title, "Bid Lot") {
        let text = string_from(&value);
        match parse_lot(text.as_str()) {
            Some((m, k)) => {
                ipo.lot_size = Some(m);
                ipo.lot_multiples = Some(k);
            },
            None => {},
        }
    } else if vec_eq_str(&title, "Issue Type") {
        ipo.issue_type = Some(string_from(&value));
    } else if vec_eq_str(&title, "Red Herring Prospectus") {
        ipo.rhp_url = Some(string_from(&value));
    }
}

/// What parsing a detail document gives: the record of its company name
/// and `issueInfo.dataList` facts, or an error when that list is missing
/// or names no symbol.
pub open spec fn detail_result(doc: JsonValue, today: Date, r: Result<Ipo, Error>) -> bool {
    match issue_items(doc) {
        None => r matches Err(Error::Parse(m)) && m@ == "detail: issueInfo.dataList missing"@,
        Some(items) => {
            let facts = nse_facts(items, today);
            if facts.symbol is None {
                r matches Err(Error::Parse(m)) && m@ == "detail: no Symbol in issueInfo"@
            } else {
                r matches Ok(ipo) && detail_record(
                    trim(text_or_empty(doc, "companyName"@)),
                    facts,
                    ipo,
                )
            }
        },
    }
}

/// Parse an `ipo-detail` JSON text into an IPO record: the company name and
/// the facts of `issueInfo.dataList`. An error when the text does not
/// parse, when that list is missing, or when it names no symbol.
pub fn parse_detail(json: &str, today: Date) -> (r: Result<Ipo, Error>)
    ensures
        match crate::json::json_document(json@) {
            Ok(doc) => detail_result(doc, today, r),
            Err(m) => r matches Err(Error::Parse(t)) && json_error(t@, "detail"@, m),
        },
{
    match crate::json::parse_json(json) {
        Ok(doc) => parse_detail_doc(&doc, today),
        Err(m) => Err(json_parse_error("detail", &m)),
    }
}

/// Parse an `ipo-detail` document into an IPO record: the company name and
/// the facts of `issueInfo.dataList`. An error when that list is missing,
/// or when it names no symbol.
pub fn parse_detail_doc(doc: &JsonValue, today: Date) -> (r: Result<Ipo, Error>)
    ensures
        detail_result(*doc, today, r),
{
    let raw = str_or_empty(doc, "companyName");
    let company = string_from(&trim_str(raw.as_str()));
    let mut ipo = Ipo::new(company.as_str(), "nse");
    let items = match get(doc, "issueInfo") {
        Some(info) => get_array(info, "dataList"),
        None => None,
    };
    let items = match items {
        Some(a) => a,
        None => {
            return Err(Error::parse("detail: issueInfo.dataList missing"));
        },
    };
    let ghost base = ipo;
    let mut i: usize = 0;
    while i < items.len()
        invariant
            i <= items.len(),
            ipo_facts(ipo) == nse_facts(items@.take(i as int), today),
            ipo == (Ipo {
                symbol: ipo.symbol,
                open_date: ipo.open_date,
                close_date: ipo.close_date,
                price_band_low: ipo.price_band_low,
                price_band_high: ipo.price_band_high,
                face_value: ipo.face_value,
                lot_size: ipo.lot_size,
                lot_multiples: ipo.lot_multiples,
                issue_type: ipo.issue_type,
                rhp_url: ipo.rhp_url,
                ..base
            }),
        decreases items.len() - i,
    {
        assert(items@.take(i + 1).drop_last() =~= items@.take(i as int));
        assert(items@.take(i + 1).last() == items@[i as int]);
        apply_fact(&mut ipo, &items[i], today);
        i = i + 1;
    }
    assert(items@.take(items.len() as int) =~= items@);
    if ipo.symbol.is_none() {
        return Err(Error::parse("detail: no Symbol in issueInfo"));
    }
    Ok(ipo)
}

// ---------------------------------------------------------------------------
// The live subscription table
// ---------------------------------------------------------------------------

/// A decimal read exactly from a text, when it is present.
pub open spec fn exact_of(t: Option<Seq<char>>) -> Option<Decimal> {
    match t {
        Some(s) => decimal_from_str_exact(s),
        None => None,
    }
}

/// The snapshot figures one `activeCat.dataList` row gives: its category
/// with the offered and bid share counts and the times subscribed; none for
/// the header row (category "Category", any case) and for categories that
/// are not known.
pub open spec fn active_row(row: JsonValue) -> Option<(SubCategory, Option<i64>, Option<i64>, Option<Decimal>)> {
    let cat = text_or_empty(row, "category"@);
    if lower_seq(trim(cat)) == "category"@ {
        None
    } else {
        match category_from_label(cat) {
            Some(c) => Some(
                (
                    c,
                    int_of(text_of(member(row, "noOfShareOffered"@))),
                    int_of(text_of(member(row, "noOfSharesBid"@))),
                    exact_of(text_of(member(row, "noOfTotalMeant"@))),
                ),
            ),
            None => None,
        }
    }
}

/// The figures of every row that gives some, in order.
pub open spec fn active_rows(rows: Seq<JsonValue>) -> Seq<(SubCategory, Option<i64>, Option<i64>, Option<Decimal>)>
    decreases rows.len(),
{
    if rows.len() == 0 {
        Seq::empty()
    } else {
        match active_row(rows.last()) {
            Some(x) => active_rows(rows.drop_last()).push(x),
            None => active_rows(rows.drop_last()),
        }
    }
}

/// The day a snapshot carries before its caller stamps the poll date
/// (0000-01-01).
pub open spec fn unstamped_day() -> Date {
    Date { year: 0, month: 1, day: 1 }
}

/// A new "nse" snapshot for IPO 0 on the unstamped day carrying `fig`.
pub open spec fn active_snapshot(
    fig: (SubCategory, Option<i64>, Option<i64>, Option<Decimal>),
    s: SubscriptionSnapshot,
) -> bool {
    &&& s.id is None
    &&& s.ipo_id == Some(0i64)
    &&& s.snapshot_at == unstamped_day()
    &&& s.category == fig.0
    &&& s.offered_shares == fig.1
    &&& s.bid_shares == fig.2
    &&& s.times_subscribed == fig.3
    &&& s.source@ == "nse"@
    &&& s.ingested_at.wf()
}

/// The rows of `activeCat.dataList`, when the document has that array.
pub open spec fn active_items(doc: JsonValue) -> Option<Seq<JsonValue>> {
    elements_of(member_of(member(doc, "activeCat"@), "dataList"@))
}

fn opt_int(o: Option<&String>) -> (r: Option<i64>)
    ensures
        r == int_of(
            match o {
                Some(s) => Some(s@),
                None => None,
            },
        ),
{
    match o {
        Some(s) => parse_int(s.as_str()),
        None => None,
    }
}

fn active_snapshot_of(row: &JsonValue) -> (r: Option<SubscriptionSnapshot>)
    ensures
        match r {
            Some(s) => active_row(*row) matches Some(fig) && active_snapshot(fig, s),
            None => active_row(*row) is None,
        },
{
    let cat = str_or_empty(row, "category");
    let key = lower_vec(&trim_str(cat.as_str()));
    if vec_eq_str(&key, "category") {
        return None;
    }
    let category = match SubCategory::parse(cat.as_str()) {
        Some(c) => c,
        None => {
            return None;
        },
    };
    let mut snapshot = SubscriptionSnapshot::new(0, Date { year: 0, month: 1, day: 1 }, category, "nse");
    snapshot.offered_shares = opt_int(get_str(row, "noOfShareOffered"));
    snapshot.bid_shares = opt_int(get_str(row, "noOfSharesBid"));
    snapshot.times_subscribed = match get_str(row, "noOfTotalMeant") {
        Some(s) => parse_decimal_exact(s.as_str()),
        None => None,
    };
    Some(snapshot)
}

/// What parsing the subscription table of a detail document gives: one
/// snapshot per known category row, or an error when the list is missing.
pub open spec fn active_result(doc: JsonValue, r: Result<Vec<SubscriptionSnapshot>, Error>) -> bool {
    match active_items(doc) {
        None => r matches Err(Error::Parse(m)) && m@ == "activeCat: dataList missing"@,
        Some(rows) => r matches Ok(v) && v.len() == active_rows(rows).len() && forall|i: int|
            0 <= i < v.len() ==> active_snapshot(active_rows(rows)[i], #[trigger] v@[i]),
    }
}

/// Parse the `activeCat.dataList` of an `ipo-detail` JSON text into
/// snapshot rows (category, offered, bid, times); an error when the text
/// does not parse or the list is missing.
pub fn parse_active_cat(json: &str) -> (r: Result<Vec<SubscriptionSnapshot>, Error>)
    ensures
        match crate::json::json_document(json@) {
            Ok(doc) => active_result(doc, r),
            Err(m) => r matches Err(Error::Parse(t)) && json_error(t@, "activeCat"@, m),
        },
{
    match crate::json::parse_json(json) {
        Ok(doc) => parse_active_cat_doc(&doc),
        Err(m) => Err(json_parse_error("activeCat", &m)),
    }
}

/// Parse the `activeCat.dataList` of an `ipo-detail` document into snapshot
/// rows (category, offered, bid, times). The header row, whose category
/// reads "Category", and unknown categories are skipped; the caller fills
/// the IPO and the poll date. An error when the list is missing.
pub fn parse_active_cat_doc(doc: &JsonValue) -> (r: Result<Vec<SubscriptionSnapshot>, Error>)
    ensures
        active_result(*doc, r),
{
    let rows = match get(doc, "activeCat") {
        Some(a) => get_array(a, "dataList"),
        None => None,
    };
    let rows = match rows {
        Some(v) => v,
        None => {
            return Err(Error::parse("activeCat: dataList missing"));
        },
    };
    let mut out: Vec<SubscriptionSnapshot> = Vec::new();
    let mut i: usize = 0;
    while i < rows.len()
        invariant
            i <= rows.len(),
            out.len() == active_rows(rows@.take(i as int)).len(),
            forall|k: int|
                0 <= k < out.len() ==> active_snapshot(active_rows(rows@.take(i as int))[k], #[trigger] out@[k]),
        decreases rows.len() - i,
    {
        let ghost pre = rows@.take(i as int);
        assert(rows@.take(i + 1).drop_last() =~= pre);
        assert(rows@.take(i + 1).last() == rows@[i as int]);
        match active_snapshot_of(&rows[i]) {
            Some(s) => {
                out.push(s);
            },
            None => {},
        }
        i = i + 1;
    }
    assert(rows@.take(rows.len() as int) =~= rows@);
    Ok(out)
}

// ---------------------------------------------------------------------------
// Endpoints and responses
// ---------------------------------------------------------------------------

/// The detail endpoint of one issue.
pub open spec fn detail_url_of(symbol: Seq<char>) -> Seq<char> {
    "https://www.nseindia.com/api/ipo-detail?symbol="@ + symbol
}

/// The history endpoint for one symbol between two days.
pub open spec fn history_url_of(symbol: Seq<char>, from: Date, to: Date) -> Seq<char> {
    "https://www.nseindia.com/api/historicalOR/generateSecurityWiseHistoricalData?from="@
        + nse_date_text(from) + "&to="@ + nse_date_text(to) + "&symbol="@ + symbol
        + "&type=priceVolumeDeliverable&series=EQ"@
}

/// The URL of the detail endpoint for `symbol`.
pub fn detail_url(symbol: &str) -> (r: String)
    ensures
        r@ == detail_url_of(symbol@),
{
    let mut v = chars_of("https://www.nseindia.com/api/ipo-detail?symbol=");
    crate::format::append(&mut v, &chars_of(symbol));
    string_from(&v)
}

/// The URL of the EOD history of `symbol` from `from` to `to`.
pub fn history_url(symbol: &str, from: Date, to: Date) -> (r: String)
    requires
        from.wf(),
        to.wf(),
    ensures
        r@ == history_url_of(symbol@, from, to),
{
    let mut v = chars_of("https://www.nseindia.com/api/historicalOR/generateSecurityWiseHistoricalData?from=");
    crate::format::append(&mut v, &chars_of(fmt_nse_date(from).as_str()));
    crate::format::append(&mut v, &chars_of("&to="));
    crate::format::append(&mut v, &chars_of(fmt_nse_date(to).as_str()));
    crate::format::append(&mut v, &chars_of("&symbol="));
    crate::format::append(&mut v, &chars_of(symbol));
    crate::format::append(&mut v, &chars_of("&type=priceVolumeDeliverable&series=EQ"));
    string_from(&v)
}

/// The first day of the history pulled for an IPO: its listing day, else
/// its close, else `today`.
pub fn history_start(ipo: &Ipo, today: Date) -> (r: Date)
    ensures
        r == match ipo.listing_date {
            Some(d) => d,
            None => match ipo.close_date {
                Some(c) => c,
                None => today,
            },
        },
{
    match ipo.listing_date {
        Some(d) => d,
        None => match ipo.close_date {
            Some(c) => c,
            None => today,
        },
    }
}

/// What to do with an HTTP response of the JSON API.
#[derive(Debug, Clone, Copy, PartialEq, Eq, Structural)]
pub enum ResponseStep {
    /// Read the body.
    Accept,
    /// Re-establish the session and ask again.
    Retry,
    /// Give up with an HTTP error.
    Reject,
}

/// The step for a response with HTTP status `status` on attempt `attempt`
/// (0 first): a refused or unavailable session (401, 403, 503) is retried
/// once; other non-success statuses are rejected.
pub open spec fn response_step_spec(status: u16, attempt: u32) -> ResponseStep {
    if status == 503 || status == 401 || status == 403 {
        if attempt == 0 {
            ResponseStep::Retry
        } else {
            ResponseStep::Reject
        }
    } else if 200 <= status <= 299 {
        ResponseStep::Accept
    } else {
        ResponseStep::Reject
    }
}

/// The step for a response of the JSON API.
pub fn response_step(status: u16, attempt: u32) -> (r: ResponseStep)
    ensures
        r == response_step_spec(status, attempt),
{
    if status == 503 || status == 401 || status == 403 {
        if attempt == 0 {
            ResponseStep::Retry
        } else {
            ResponseStep::Reject
        }
    } else if 200 <= status && status <= 299 {
        ResponseStep::Accept
    } else {
        ResponseStep::Reject
    }
}

/// Snapshots stamped for one IPO and poll day.
pub open spec fn stamped(s: Seq<SubscriptionSnapshot>, ipo_id: Option<i64>, day: Date, r: Seq<SubscriptionSnapshot>) -> bool {
    &&& r.len() == s.len()
    &&& forall|i: int|
        0 <= i < s.len() ==> #[trigger] r[i] == (SubscriptionSnapshot { ipo_id, snapshot_at: day, ..s[i] })
}

/// Stamp scraped snapshots with the IPO they belong to and the poll day.
pub fn stamp_snapshots(snapshots: Vec<SubscriptionSnapshot>, ipo_id: Option<i64>, day: Date) -> (r: Vec<SubscriptionSnapshot>)
    ensures
        stamped(snapshots@, ipo_id, day, r@),
{
    let ghost orig = snapshots@;
    let mut rest = snapshots;
    let mut out: Vec<SubscriptionSnapshot> = Vec::new();
    let mut k: usize = 0;
    let n = rest.len();
    while rest.len() > 0
        invariant
            k <= orig.len(),
            n == orig.len(),
            rest@ == orig.skip(k as int),
            rest.len() == orig.len() - k,
            out.len() == k,
            forall|i: int|
                0 <= i < k ==> #[trigger] out@[i] == (SubscriptionSnapshot { ipo_id, snapshot_at: day, ..orig[i] }),
        decreases rest.len(),
    {
        assert(orig.skip(k as int)[0] == orig[k as int]);
        let mut s = rest.remove(0);
        assert(rest@ =~= orig.skip(k + 1));
        s.ipo_id = ipo_id;
        s.snapshot_at = day;
        out.push(s);
        k = k + 1;
    }
    out
}

// ---------------------------------------------------------------------------
// End-of-day history
// ---------------------------------------------------------------------------

/// A session's prices as read from one row of the history document: open,
/// high, low, close and VWAP. The document carries them as floating-point
/// numbers, which are read outside the library.
#[derive(Debug, Clone, Copy)]
pub struct SessionPrices {
    pub open: Option<Decimal>,
    pub high: Option<Decimal>,
    pub low: Option<Decimal>,
    pub close: Option<Decimal>,
    pub vwap: Option<Decimal>,
}

/// Parse the JSON text of a `historicalOR` response into its document; a
/// parse error naming "historical" when the text does not parse. (Its
/// prices are floating-point numbers, read outside the library.)
pub fn parse_history_doc(json: &str) -> (r: Result<JsonValue, Error>)
    ensures
        match crate::json::json_document(json@) {
            Ok(doc) => r == Ok::<JsonValue, Error>(doc),
            Err(m) => r matches Err(Error::Parse(t)) && json_error(t@, "historical"@, m),
        },
{
    match crate::json::parse_json(json) {
        Ok(doc) => Ok(doc),
        Err(m) => Err(json_parse_error("historical", &m)),
    }
}

/// The rows of a history document: its `data` array.
pub fn history_rows(doc: &JsonValue) -> (r: Result<&Vec<JsonValue>, Error>)
    ensures
        match elements_of(member(*doc, "data"@)) {
            Some(a) => r matches Ok(v) && v@ == a,
            None => r matches Err(Error::Parse(m)) && m@ == "historical: data missing"@,
        },
{
    match get_array(doc, "data") {
        Some(a) => Ok(a),
        None => Err(crate::parse_util::parse_err("historical: data missing")),
    }
}

/// Whether `s` is a non-empty run of ASCII digits.
pub open spec fn all_digits(s: Seq<char>) -> bool {
    s.len() > 0 && forall|i: int| 0 <= i < s.len() ==> crate::text::is_digit(#[trigger] s[i])
}

/// The traded quantity of a history row: its `CH_TOT_TRADED_QTY` member
/// when that is a whole number that fits in `u64`.
pub open spec fn traded_qty(row: JsonValue) -> Option<u64> {
    match member(row, "CH_TOT_TRADED_QTY"@) {
        Some(JsonValue::Number(t)) => if all_digits(t@) && crate::decimal::digits_value(t@)
            <= u64::MAX {
            Some(crate::decimal::digits_value(t@) as u64)
        } else {
            None
        },
        _ => None,
    }
}

/// The price point a history row gives with the prices read from it: none
/// when its `mTIMESTAMP` is not a date; otherwise a fresh "nse" row for
/// that day with those prices and the traded quantity (as `i64`, as a cast
/// gives it).
pub open spec fn history_point_facts(row: JsonValue, prices: SessionPrices, r: Option<crate::types::PricePoint>) -> bool {
    match text_of(member(row, "mTIMESTAMP"@)) {
        Some(t) => match day_month_year(t) {
            Some(d) => r matches Some(p) && {
                &&& p.id is None
                &&& p.ipo_id == Some(0i64)
                &&& p.trade_date == d
                &&& p.open_price == prices.open
                &&& p.high_price == prices.high
                &&& p.low_price == prices.low
                &&& p.close_price == prices.close
                &&& p.vwap == prices.vwap
                &&& p.volume == (match traded_qty(row) {
                    Some(q) => Some(q as i64),
                    None => None,
                })
                &&& p.source@ == "nse"@
            },
            None => r is None,
        },
        None => r is None,
    }
}

proof fn lemma_digits_value_grows(s: Seq<char>, i: int)
    requires
        0 <= i <= s.len(),
        forall|k: int| 0 <= k < s.len() ==> crate::text::is_digit(#[trigger] s[k]),
    ensures
        crate::decimal::digits_value(s.take(i)) <= crate::decimal::digits_value(s),
    decreases s.len() - i,
{
    if i < s.len() {
        lemma_digits_value_grows(s, i + 1);
        assert(s.take(i + 1).drop_last() =~= s.take(i));
        assert(s.take(i + 1).last() == s[i]);
    } else {
        assert(s.take(i) =~= s);
    }
}

fn whole_number(t: &String) -> (r: Option<u64>)
    ensures
        r == (if all_digits(t@) && crate::decimal::digits_value(t@) <= u64::MAX {
            Some(crate::decimal::digits_value(t@) as u64)
        } else {
            None::<u64>
        }),
{
    let v = chars_of(t.as_str());
    if v.len() == 0 {
        return None;
    }
    let mut acc: u64 = 0;
    let mut i: usize = 0;
    while i < v.len()
        invariant
            i <= v.len(),
            v@ == t@,
            acc == crate::decimal::digits_value(v@.take(i as int)),
            forall|k: int| 0 <= k < i ==> crate::text::is_digit(#[trigger] v@[k]),
        decreases v.len() - i,
    {
        let c = v[i];
        assert(v@.take(i + 1).drop_last() =~= v@.take(i as int));
        assert(v@.take(i + 1).last() == c);
        if !('0' <= c && c <= '9') {
            assert(!crate::text::is_digit(v@[i as int]));
            return None;
        }
        let d: u64 = (c as u32 - '0' as u32) as u64;
        if acc > (u64::MAX - d) / 10 {
            proof {
                assert(acc * 10 + d > u64::MAX) by (nonlinear_arith)
                    requires
                        acc > (u64::MAX - d) / 10,
                        d <= 9,
                ;
                if all_digits(t@) {
                    lemma_digits_value_grows(v@, i + 1);
                }
            }
            return None;
        }
        acc = acc * 10 + d;
        i = i + 1;
    }
    assert(v@.take(v.len() as int) =~= v@);
    Some(acc)
}

/// The price point a row of the history document gives, with the prices
/// read from it.
pub fn history_point(row: &JsonValue, prices: SessionPrices) -> (r: Option<crate::types::PricePoint>)
    ensures
        history_point_facts(*row, prices, r),
{
    let stamp = match get_str(row, "mTIMESTAMP") {
        Some(t) => t,
        None => return None,
    };
    let day = match parse_day_month_year(stamp.as_str()) {
        Some(d) => d,
        None => return None,
    };
    let mut p = crate::types::PricePoint::new(0, day, "nse");
    p.open_price = prices.open;
    p.high_price = prices.high;
    p.low_price = prices.low;
    p.close_price = prices.close;
    p.vwap = prices.vwap;
    p.volume = match get(row, "CH_TOT_TRADED_QTY") {
        Some(JsonValue::Number(t)) => match whole_number(t) {
            Some(q) => Some(q as i64),
            None => None,
        },
        _ => None,
    };
    Some(p)
}

} // verus!

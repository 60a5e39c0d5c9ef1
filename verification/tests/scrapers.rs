use rust_decimal::prelude::FromPrimitive;

use mosaic::chittorgarh::{
    detail_from_page, detail_page_url, ChittorgarhDetail, detail_to_ipo, extract_embedded_symbol, parse_dashboard,
    parse_detail as parse_chittorgarh_detail, parse_detail_at,
};
use mosaic::date::Date;
use mosaic::decimal::{from_u64, Decimal};
use mosaic::error::Error;
use mosaic::ipowatch::{archive_from_tables, parse_archive, rows_to_ipos};
use mosaic::json::JsonValue;
use mosaic::nse::{
    detail_url, fmt_nse_date, parse_history_doc, history_point, history_rows, history_start, history_url,
    parse_active_cat, parse_active_cat_doc, parse_calendar, parse_calendar_doc, parse_detail_doc,
    SessionPrices,
    parse_detail, response_step, stamp_snapshots, ResponseStep,
};
use mosaic::types::{Ipo, IpoStatus, SubCategory, SubscriptionSnapshot};

fn d(y: i16, m: i8, day: i8) -> Date {
    Date { year: y, month: m, day }
}

fn rd(d: Decimal) -> rust_decimal::Decimal {
    rust_decimal::Decimal::from_parts(
        d.mantissa as u32,
        (d.mantissa >> 32) as u32,
        (d.mantissa >> 64) as u32,
        d.negative,
        d.scale,
    )
}

fn dec(s: &str) -> Decimal {
    let d = rust_decimal::Decimal::from_str_exact(s).unwrap();
    Decimal { negative: d.is_sign_negative(), mantissa: d.mantissa().unsigned_abs(), scale: d.scale() }
}

fn compare(a: Decimal, b: Decimal) -> i8 {
    let (x, y) = (rd(a), rd(b));
    if x < y {
        -1
    } else if x == y {
        0
    } else {
        1
    }
}

fn same(a: Option<Decimal>, b: Option<Decimal>) -> bool {
    match (a, b) {
        (Some(x), Some(y)) => compare(x, y) == 0,
        (None, None) => true,
        _ => false,
    }
}

fn json_of(v: &JsonValue) -> serde_json::Value {
    match v {
        JsonValue::Null => serde_json::Value::Null,
        JsonValue::Bool(b) => serde_json::Value::Bool(*b),
        JsonValue::Number(n) => serde_json::from_str(n).unwrap(),
        JsonValue::Str(t) => serde_json::Value::String(t.clone()),
        JsonValue::Array(a) => serde_json::Value::Array(a.iter().map(json_of).collect()),
        JsonValue::Object(m) => serde_json::Value::Object(m.iter().map(|(k, x)| (k.clone(), json_of(x))).collect()),
    }
}

/// The JSON text of a document, as serde_json writes it.
fn to_text(v: &JsonValue) -> String {
    json_of(v).to_string()
}

fn text(s: &str) -> JsonValue {
    JsonValue::Str(s.to_string())
}

fn object(pairs: Vec<(&str, JsonValue)>) -> JsonValue {
    JsonValue::Object(pairs.into_iter().map(|(k, v)| (k.to_string(), v)).collect())
}

const DASHBOARD: &str = r#"<html><body>
<table>
<tr><th>Company</th><th>Issue Date</th><th>Type</th></tr>
<tr><td><a href="/ipo/ardee-industries-ipo/2860/">Ardee Industries</a></td><td>Aug 5-7, 2026</td><td>Mainboard</td></tr>
<tr><td><a href="/ipo/dhoot-transmission-ipo/2861/">Dhoot Transmission</a></td><td>Aug 10-12, 2026</td><td>Mainboard</td></tr>
<tr><td><a href="/ipo/manipal-health-ipo/2850/">Manipal Health Enterprises</a></td><td>Jul 29-31, 2026</td><td>Mainboard</td></tr>
<tr><td><a href="https://www.chittorgarh.com/ipo/lohia-corp-ipo/2862/">Lohia Corp</a></td><td>Aug 11-13, 2026</td><td>Mainboard</td></tr>
<tr><td>Anawil Wire &amp; Engineering</td><td>Aug 12-14, 2026</td><td>SME</td></tr>
<tr><td></td><td></td></tr>
</table>
</body></html>"#;

#[test]
fn dashboard_parses_current_ipos() {
    let entries = parse_dashboard(DASHBOARD).unwrap();
    assert!(entries.len() >= 5, "expected >=5 rows, got {}", entries.len());
    let ardee = entries.iter().find(|e| e.company.contains("Ardee")).expect("Ardee on dashboard");
    assert_eq!(ardee.detail_url.as_deref(), Some("/ipo/ardee-industries-ipo/2860/"));
}

#[test]
fn dashboard_rows_without_link_or_header() {
    let entries = parse_dashboard(DASHBOARD).unwrap();
    assert_eq!(entries.len(), 5);
    assert_eq!(entries[0].company, "Ardee Industries");
    assert_eq!(entries[0].period, "Aug 5-7, 2026");
    assert_eq!(entries[4].company, "Anawil Wire & Engineering");
    assert_eq!(entries[4].detail_url, None);
    assert_eq!(
        detail_page_url(entries[0].detail_url.as_deref().unwrap()),
        "https://www.chittorgarh.com/ipo/ardee-industries-ipo/2860/"
    );
    assert_eq!(
        detail_page_url(entries[3].detail_url.as_deref().unwrap()),
        "https://www.chittorgarh.com/ipo/lohia-corp-ipo/2862/"
    );
}

#[test]
fn dashboard_link_is_first_ipo_href() {
    let html = r#"<table><tr><td><a name="top">Sattva Engineering</a> <a href="/news/sattva/">news</a> <a href="/ipo/sattva-ipo/2870/">ipo</a></td><td>Aug 12-14, 2026</td></tr></table>"#;
    let entries = parse_dashboard(html).unwrap();
    assert_eq!(entries.len(), 1);
    assert_eq!(entries[0].company, "Sattva Engineering news ipo");
    assert_eq!(entries[0].detail_url.as_deref(), Some("/ipo/sattva-ipo/2870/"));
}

const DETAIL: &str = r#"<html><head><script>{"props":{"ipo":{"symbol":"MANIPALHOS","name":"x"}}}</script></head>
<body>
<h1>Manipal Health Enterprises  IPO Details</h1>
<table>
<tr><td>IPO Date</td><td>29 to 31 Jul, 2026</td></tr>
<tr><td>Listing Date</td><td>Wed, Aug 5, 2026</td></tr>
<tr><td>Face Value</td><td>₹2 per share</td></tr>
<tr><td>Price Band</td><td>₹560 to ₹590</td></tr>
<tr><td>Issue Price</td><td>₹590 per share</td></tr>
<tr><td>Lot Size</td><td>25 Shares</td></tr>
<tr><td>Sale Type</td><td>Fresh capital cum OFS</td></tr>
<tr><td>Issue Type</td><td>Bookbuilding IPO</td></tr>
<tr><td>Listing At</td><td>BSE, NSE</td></tr>
</table>
<table>
<tr><td>Total Issue Size</td><td>15,72,33,715 shares (aggregating up to ₹9,275.00 Cr)</td></tr>
<tr><td>Fresh Issue</td><td>13,56,19,881 shares</td></tr>
<tr><td>Offer for Sale</td><td>2,16,13,834 shares of ₹2</td></tr>
</table>
<table>
<tr><th>Category</th><th>Subscription (times)</th><th>Shares Offered</th><th>Shares bid for</th></tr>
<tr><td>QIB (Ex Anchor)</td><td>10.45</td><td>2,47,44,271</td><td>25,85,77,632</td></tr>
<tr><td>NII</td><td>3.21</td><td>1,85,58,203</td><td>5,95,72,831</td></tr>
<tr><td>bNII (bids above ₹10L)</td><td>3.5</td><td>1,23,72,135</td><td>4,33,02,472</td></tr>
<tr><td>Retail</td><td>1.89</td><td>4,33,02,473</td><td>8,18,41,674</td></tr>
<tr><td>Employee</td><td>2.1</td><td>1,00,000</td><td>2,10,000</td></tr>
<tr><td>Total</td><td>5.12</td><td>8,66,04,947</td><td>44,34,13,323</td></tr>
</table>
</body></html>"#;

#[test]
fn detail_page_facts_split_and_subscription() {
    let detail = parse_detail_at(DETAIL, d(2026, 8, 5)).unwrap();
    assert_eq!(detail.company, "Manipal Health Enterprises");
    assert_eq!(detail.open_date, Some(d(2026, 7, 29)));
    assert_eq!(detail.close_date, Some(d(2026, 7, 31)));
    assert_eq!(detail.listing_date, Some(d(2026, 8, 5)));
    assert!(!detail.listing_date_tentative);
    assert!(same(detail.price_band_low, Some(from_u64(560))));
    assert!(same(detail.price_band_high, Some(from_u64(590))));
    assert!(same(detail.final_price, Some(from_u64(590))));
    assert!(same(detail.face_value, Some(from_u64(2))));
    assert_eq!(detail.lot_size, Some(25));
    assert_eq!(detail.offer_type.as_deref(), Some("Fresh capital cum OFS"));
    assert_eq!(detail.issue_type.as_deref(), Some("Bookbuilding IPO"));
    assert_eq!(detail.listing_at.as_deref(), Some("BSE, NSE"));
    assert_eq!(detail.shares_offered, Some(157233715));
    assert_eq!(detail.fresh_issue_shares, Some(135619881));
    assert_eq!(detail.ofs_shares, Some(21613834));
    assert_eq!(detail.symbol.as_deref(), Some("MANIPALHOS"));
    let cats: Vec<SubCategory> = detail.final_subscription.iter().map(|s| s.category).collect();
    assert_eq!(cats, vec![SubCategory::Qib, SubCategory::Nii, SubCategory::Retail, SubCategory::Total]);
    let total = detail.final_subscription.iter().find(|s| s.category == SubCategory::Total).unwrap();
    assert_eq!(total.times_text, "5.12");
    assert_eq!(total.offered_shares, Some(86604947));
}

#[test]
fn detail_extracts_symbol_and_final_subscription() {
    let detail = parse_chittorgarh_detail(DETAIL).unwrap();
    assert_eq!(detail.symbol.as_deref(), Some("MANIPALHOS"));
    // QIB (Ex Anchor), NII, Retail, Total mapped; bNII/sNII/Employee skipped.
    let cats: Vec<_> = detail.final_subscription.iter().map(|s| s.category).collect();
    assert_eq!(cats, vec![SubCategory::Qib, SubCategory::Nii, SubCategory::Retail, SubCategory::Total]);
    let total = detail.final_subscription.iter().find(|s| s.category == SubCategory::Total).unwrap();
    let times = total.times_text.trim().parse::<f64>().ok().and_then(rust_decimal::Decimal::from_f64);
    assert_eq!(times, Some(rust_decimal::Decimal::from_str_exact("5.12").unwrap()));
    assert_eq!(total.offered_shares, Some(86604947));
}

#[test]
fn detail_parses_key_facts_and_split() {
    let detail = parse_chittorgarh_detail(DETAIL).unwrap();
    assert_eq!(detail.company, "Manipal Health Enterprises");
    assert_eq!(detail.open_date, Some(d(2026, 7, 29)));
    assert_eq!(detail.close_date, Some(d(2026, 7, 31)));
    assert_eq!(detail.listing_date, Some(d(2026, 8, 5)));
    assert_eq!(detail.price_band_low.map(rd), Some(rust_decimal::Decimal::from(560)));
    assert_eq!(detail.price_band_high.map(rd), Some(rust_decimal::Decimal::from(590)));
    assert_eq!(detail.final_price.map(rd), Some(rust_decimal::Decimal::from(590)));
    assert_eq!(detail.face_value.map(rd), Some(rust_decimal::Decimal::from(2)));
    assert_eq!(detail.lot_size, Some(25));
    assert_eq!(detail.offer_type.as_deref(), Some("Fresh capital cum OFS"));
    assert_eq!(detail.issue_type.as_deref(), Some("Bookbuilding IPO"));
    assert_eq!(detail.listing_at.as_deref(), Some("BSE, NSE"));
    assert_eq!(detail.shares_offered, Some(157233715));
    assert_eq!(detail.fresh_issue_shares, Some(135619881));
    assert_eq!(detail.ofs_shares, Some(21613834));
}

#[test]
fn detail_record_takes_listing_status() {
    let detail = parse_detail_at(DETAIL, d(2026, 8, 5)).unwrap();
    let ipo = detail_to_ipo(&detail, "https://www.chittorgarh.com/ipo/manipal-health-ipo/2850/", d(2026, 8, 5));
    assert_eq!(ipo.status, IpoStatus::Listed);
    assert_eq!(ipo.source, "chittorgarh");
    assert_eq!(ipo.normalized_name, "manipal health enterprises");
    assert_eq!(ipo.exchange.as_deref(), Some("BSE, NSE"));
    assert_eq!(ipo.symbol.as_deref(), Some("MANIPALHOS"));
    assert_eq!(ipo.detail_url.as_deref(), Some("https://www.chittorgarh.com/ipo/manipal-health-ipo/2850/"));
}

#[test]
fn embedded_symbol_needs_two_characters() {
    assert_eq!(extract_embedded_symbol(r#"x "symbol":"ARDEE", y"#).as_deref(), Some("ARDEE"));
    assert_eq!(extract_embedded_symbol(r#""symbol": "A", "symbol":"TCS1""#).as_deref(), Some("TCS1"));
    assert_eq!(extract_embedded_symbol("no ticker here"), None);
}

const ARCHIVE: &str = r#"<html><body>
<table>
<tr><th>Company</th><th>IPO Date</th><th>IPO Size</th><th>IPO Price Band</th><th>Application</th></tr>
<tr><td>Ardee Industries Limited</td><td>5-7 August</td><td>₹150.75 Cr.</td><td>₹50 to ₹53</td><td>Apply</td></tr>
<tr><td>Dhoot Transmission &amp;amp; Co</td><td>10-12 August</td><td>₹3,066.89 Cr.</td><td>₹[.]</td><td>Apply</td></tr>
<tr><td>Manipal Health Enterprises</td><td>29-31 July</td><td>₹9,275 Cr.</td><td>₹560 to ₹590</td><td>Apply</td></tr>
<tr><td>₹[.]</td><td>TBA</td><td></td></tr>
<tr><td>Short Row</td><td>TBA</td></tr>
</table>
<table>
<tr><th>Company</th><th>IPO Date</th><th>Platform</th><th>IPO Size</th></tr>
<tr><td>Tiny SME Limited</td><td>6-8 August</td><td>NSE SME</td><td>₹12 Cr.</td></tr>
</table>
</body></html>"#;

#[test]
fn archive_rows_from_mainboard_table() {
    let rows = parse_archive(ARCHIVE).unwrap();
    assert_eq!(rows.len(), 3);
    assert!(rows.iter().all(|r| !r.company.contains("SME")));
    let ardee = rows.iter().find(|r| r.company.contains("Ardee")).expect("Ardee row");
    assert_eq!(ardee.period, "5-7 August");
    assert!(same(ardee.price_band_low, Some(from_u64(50))));
    assert!(same(ardee.price_band_high, Some(from_u64(53))));
    let dhoot = rows.iter().find(|r| r.company.contains("Dhoot")).expect("Dhoot row");
    assert_eq!(dhoot.company, "Dhoot Transmission & Co");
    assert!(same(dhoot.issue_size, Some(dec("3066.89"))));
    assert!(same(dhoot.price_band_low, None));
}

#[test]
fn archive_rows_become_ipos() {
    let rows = parse_archive(ARCHIVE).unwrap();
    let ipos = rows_to_ipos(&rows, d(2026, 8, 5));
    let ardee = ipos.iter().find(|i| i.normalized_name == "ardee industries").unwrap();
    assert_eq!(ardee.open_date, Some(d(2026, 8, 5)));
    assert_eq!(ardee.close_date, Some(d(2026, 8, 7)));
    assert_eq!(ardee.status, IpoStatus::Open);
    assert_eq!(ardee.source, "ipowatch");
    let manipal = ipos.iter().find(|i| i.normalized_name == "manipal health enterprises").unwrap();
    assert_eq!(manipal.status, IpoStatus::Closed);
}

const UPCOMING: &str = r#"<html><body>
<table>
<tr><th>Company</th><th>IPO Date</th><th>IPO Size</th><th>IPO Price Band</th></tr>
<tr><td>Ardee Industries Limited</td><td>5-7 August</td><td>₹150.75 Cr.</td><td>₹50 to ₹53</td></tr>
<tr><td>Dhoot Transmission Limited</td><td>10-12 August</td><td>₹3,066.89 Cr.</td><td>₹[.]</td></tr>
<tr><td>Manipal Health Limited</td><td>29-31 July</td><td>₹9,275 Cr.</td><td>₹560 to ₹590</td></tr>
<tr><td>Lohia Corp Limited</td><td>11-13 August</td><td>₹400 Cr.</td><td>₹100 to ₹105</td></tr>
<tr><td>Sattva Engineering Limited</td><td>12-14 August</td><td>₹220 Cr.</td><td>₹[.]</td></tr>
<tr><td>Kanodia Cement Limited</td><td>18-20 August</td><td>₹[.] Cr.</td><td>₹[.]</td></tr>
<tr><td>Brigade Hotel Ventures Limited</td><td>24-28 July</td><td>₹759.6 Cr.</td><td>₹85 to ₹90</td></tr>
<tr><td>Shanti Gold International Limited</td><td>25-29 July</td><td>₹360.11 Cr.</td><td>₹189 to ₹199</td></tr>
<tr><td>Indiqube Spaces Limited</td><td>23-25 July</td><td>₹700 Cr.</td><td>₹225 to ₹237</td></tr>
<tr><td>GNG Electronics Limited</td><td>23-25 July</td><td>₹460.43 Cr.</td><td>₹225 to ₹237</td></tr>
<tr><td>Aditya Infotech Limited</td><td>29-31 July</td><td>₹1,300 Cr.</td><td>₹640 to ₹675</td></tr>
</table>
<table>
<tr><th>Company</th><th>IPO Date</th><th>Platform</th><th>IPO Size</th></tr>
<tr><td>Tiny SME Limited</td><td>6-8 August</td><td>NSE SME</td><td>₹12 Cr.</td></tr>
</table>
</body></html>"#;

#[test]
fn archive_parses_mainboard_and_skips_sme() {
    let rows = parse_archive(UPCOMING).unwrap();
    // Mainboard table only (SME table has "Platform" column).
    assert!(rows.len() >= 10, "expected >=10 mainboard rows, got {}", rows.len());
    assert!(rows.iter().all(|r| !r.company.contains("SME")));
    let ardee = rows.iter().find(|r| r.company.contains("Ardee")).expect("Ardee row");
    assert_eq!(ardee.period, "5-7 August");
    assert_eq!(ardee.price_band_low.map(rd), Some(rust_decimal::Decimal::from(50)));
    assert_eq!(ardee.price_band_high.map(rd), Some(rust_decimal::Decimal::from(53)));
    let dhoot = rows.iter().find(|r| r.company.contains("Dhoot")).expect("Dhoot row");
    // ₹3,066.89 Cr → 3066.89
    assert_eq!(dhoot.issue_size.map(rd), Some(rust_decimal::Decimal::from_str_exact("3066.89").unwrap()));
}

#[test]
fn rows_become_ipos_with_derived_status() {
    let rows = parse_archive(UPCOMING).unwrap();
    let ipos = rows_to_ipos(&rows, d(2026, 8, 5));
    let ardee = ipos.iter().find(|i| i.normalized_name == "ardee industries").unwrap();
    assert_eq!(ardee.open_date, Some(d(2026, 8, 5)));
    assert_eq!(ardee.close_date, Some(d(2026, 8, 7)));
    assert_eq!(ardee.status, IpoStatus::Open);
    // No listing date in the archive table, so a closed window derives
    // as Closed until NSE/Chittorgarh detail provides the listing date.
    let manipal = ipos.iter().find(|i| i.normalized_name == "manipal health").unwrap();
    assert_eq!(manipal.status, IpoStatus::Closed);
}

fn calendar_doc() -> JsonValue {
    JsonValue::Array(vec![
        object(vec![
            ("symbol", text("ARDEE")),
            ("companyName", text("  Ardee Industries Limited ")),
            ("series", text("EQ")),
            ("issueStartDate", text("05-Aug-2026")),
            ("issueEndDate", text("07-Aug-2026")),
            ("issuePrice", text("Rs.50 to Rs.53")),
            ("issueSize", text("58422516")),
            ("status", text("Active")),
        ]),
        object(vec![
            ("symbol", text("TINY")),
            ("companyName", text("Tiny SME Limited")),
            ("series", text("SME")),
            ("issueStartDate", text("06-Aug-2026")),
        ]),
        object(vec![("series", text("EQ")), ("companyName", text("   "))]),
    ])
}

#[test]
fn calendar_parses_mainboard_rows() {
    let ipos = parse_calendar(&to_text(&calendar_doc()), d(2026, 8, 5)).unwrap();
    assert_eq!(ipos.len(), 1);
    let ipo = &ipos[0];
    assert_eq!(ipo.company_name, "Ardee Industries Limited");
    assert_eq!(ipo.symbol.as_deref(), Some("ARDEE"));
    assert_eq!(ipo.open_date, Some(d(2026, 8, 5)));
    assert_eq!(ipo.close_date, Some(d(2026, 8, 7)));
    assert!(same(ipo.price_band_low, Some(from_u64(50))));
    assert!(same(ipo.price_band_high, Some(from_u64(53))));
    assert_eq!(ipo.shares_offered, Some(58422516));
    assert_eq!(ipo.status, IpoStatus::Open);
}

#[test]
fn calendar_needs_an_array() {
    match parse_calendar(&to_text(&object(vec![])), d(2026, 8, 5)) {
        Err(Error::Parse(m)) => assert_eq!(m, "calendar: expected array"),
        _ => panic!("expected a parse error"),
    }
}

fn detail_doc(with_symbol: bool) -> JsonValue {
    let mut items = vec![
        object(vec![("title", text("Issue Period")), ("value", text("05-Aug-2026 to 07-Aug-2026"))]),
        object(vec![("title", text("Price Range")), ("value", text("Rs.50 to Rs.53"))]),
        object(vec![("title", text("Face Value")), ("value", text("Rs.2 per Equity Share"))]),
        object(vec![("title", text("Bid Lot")), ("value", text("Minimum 281 Equity shares and in multiples thereof"))]),
        object(vec![("title", text("Issue Type")), ("value", text("100% Book Building"))]),
        object(vec![
            ("title", text("Red Herring Prospectus")),
            ("value", text("https://nsearchives.nseindia.com/emerge/ipo/RHP_ARDEE.zip")),
        ]),
        object(vec![("title", text("Unrelated")), ("value", text("ignored"))]),
    ];
    if with_symbol {
        items.insert(0, object(vec![("title", text("Symbol")), ("value", text(" ARDEE "))]));
    }
    object(vec![
        ("companyName", text("Ardee Industries Limited")),
        ("issueInfo", object(vec![("dataList", JsonValue::Array(items))])),
    ])
}

#[test]
fn detail_parses_issue_info() {
    let ipo = parse_detail(&to_text(&detail_doc(true)), d(2026, 8, 5)).unwrap();
    assert_eq!(ipo.symbol.as_deref(), Some("ARDEE"));
    assert_eq!(ipo.open_date, Some(d(2026, 8, 5)));
    assert_eq!(ipo.close_date, Some(d(2026, 8, 7)));
    assert!(same(ipo.price_band_low, Some(from_u64(50))));
    assert!(same(ipo.price_band_high, Some(from_u64(53))));
    assert!(same(ipo.face_value, Some(from_u64(2))));
    assert_eq!(ipo.lot_size, Some(281));
    assert_eq!(ipo.lot_multiples, Some(281));
    assert_eq!(ipo.issue_type.as_deref(), Some("100% Book Building"));
    assert!(ipo.rhp_url.as_deref().unwrap_or("").contains("RHP_ARDEE.zip"));
}

#[test]
fn detail_errors_without_list_or_symbol() {
    match parse_detail(&to_text(&detail_doc(false)), d(2026, 8, 5)) {
        Err(Error::Parse(m)) => assert_eq!(m, "detail: no Symbol in issueInfo"),
        _ => panic!("expected the missing-symbol error"),
    }
    match parse_detail(&to_text(&object(vec![("companyName", text("X"))])), d(2026, 8, 5)) {
        Err(Error::Parse(m)) => assert_eq!(m, "detail: issueInfo.dataList missing"),
        _ => panic!("expected the missing-list error"),
    }
}

fn active_row(cat: &str, offered: &str, bid: &str, times: &str, sr: JsonValue) -> JsonValue {
    object(vec![
        ("category", text(cat)),
        ("noOfShareOffered", text(offered)),
        ("noOfSharesBid", text(bid)),
        ("noOfTotalMeant", text(times)),
        ("srNo", sr),
    ])
}

#[test]
fn active_cat_full_window_shape() {
    let doc = object(vec![(
        "activeCat",
        object(vec![(
            "dataList",
            JsonValue::Array(vec![
                active_row("Category", "offered", "bid", "times", text("1")),
                active_row("QIB", "58422429.0", "123456789.0", "2.11", JsonValue::Null),
                active_row("NII", "17526729.0", "45678901.0", "2.61", JsonValue::Null),
                active_row("Retail", "5842243.0", "98765432.0", "16.91", JsonValue::Null),
                active_row("Total", "81791301.0", "267909122.0", "3.28", JsonValue::Null),
            ]),
        )]),
    )]);
    let rows = parse_active_cat(&to_text(&doc)).unwrap();
    assert_eq!(rows.len(), 4);
    assert_eq!(rows[0].category, SubCategory::Qib);
    assert!(same(rows[0].times_subscribed, Some(dec("2.11"))));
    assert_eq!(rows[3].category, SubCategory::Total);
}

#[test]
fn active_cat_skips_header_row() {
    let doc = object(vec![(
        "activeCat",
        object(vec![(
            "dataList",
            JsonValue::Array(vec![
                active_row("Category", "offered", "bid", "times", text("1")),
                active_row("Employees", "10", "20", "2.0", JsonValue::Null),
                active_row("Total", "81791301.0", "0", "0", JsonValue::Null),
            ]),
        )]),
    )]);
    let rows = parse_active_cat(&to_text(&doc)).unwrap();
    assert_eq!(rows.len(), 1);
    assert_eq!(rows[0].category, SubCategory::Total);
    assert!(same(rows[0].times_subscribed, Some(from_u64(0))));
    assert_eq!(rows[0].offered_shares, Some(81791301));
    assert_eq!(rows[0].source, "nse");
    assert_eq!(rows[0].snapshot_at, d(0, 1, 1));
    match parse_active_cat(&to_text(&object(vec![]))) {
        Err(Error::Parse(m)) => assert_eq!(m, "activeCat: dataList missing"),
        _ => panic!("expected the missing-list error"),
    }
}

#[test]
fn nse_date_format() {
    assert_eq!(fmt_nse_date(d(2026, 8, 4)), "04-08-2026");
}

#[test]
fn nse_endpoints_and_responses() {
    assert_eq!(detail_url("ARDEE"), "https://www.nseindia.com/api/ipo-detail?symbol=ARDEE");
    assert_eq!(
        history_url("RELIANCE", d(2026, 7, 1), d(2026, 8, 4)),
        "https://www.nseindia.com/api/historicalOR/generateSecurityWiseHistoricalData?from=01-07-2026&to=04-08-2026&symbol=RELIANCE&type=priceVolumeDeliverable&series=EQ"
    );
    assert_eq!(response_step(200, 0), ResponseStep::Accept);
    assert_eq!(response_step(503, 0), ResponseStep::Retry);
    assert_eq!(response_step(403, 1), ResponseStep::Reject);
    assert_eq!(response_step(404, 0), ResponseStep::Reject);
    let mut ipo = Ipo::new("Reliance Industries", "nse");
    assert_eq!(history_start(&ipo, d(2026, 8, 5)), d(2026, 8, 5));
    ipo.close_date = Some(d(2026, 7, 3));
    assert_eq!(history_start(&ipo, d(2026, 8, 5)), d(2026, 7, 3));
    ipo.listing_date = Some(d(2026, 7, 8));
    assert_eq!(history_start(&ipo, d(2026, 8, 5)), d(2026, 7, 8));
}

#[test]
fn snapshots_are_stamped_for_their_ipo() {
    let s = SubscriptionSnapshot::new(0, d(0, 1, 1), SubCategory::Total, "nse");
    let out = stamp_snapshots(vec![s], Some(7), d(2026, 8, 5));
    assert_eq!(out.len(), 1);
    assert_eq!(out[0].ipo_id, Some(7));
    assert_eq!(out[0].snapshot_at, d(2026, 8, 5));
    assert_eq!(out[0].category, SubCategory::Total);
}

#[test]
fn derive_status_lifecycle() {
    let today = d(2026, 8, 5);
    let mut ipo = Ipo::new("X", "test");

    ipo.open_date = Some(d(2026, 8, 10));
    ipo.close_date = Some(d(2026, 8, 12));
    ipo.derive_status(today);
    assert_eq!(ipo.status, IpoStatus::Upcoming);

    ipo.open_date = Some(d(2026, 8, 5));
    ipo.derive_status(today);
    assert_eq!(ipo.status, IpoStatus::Open);

    ipo.close_date = Some(d(2026, 8, 5));
    ipo.derive_status(today);
    assert_eq!(ipo.status, IpoStatus::Open);

    ipo.close_date = Some(d(2026, 8, 4));
    ipo.derive_status(today);
    assert_eq!(ipo.status, IpoStatus::Closed);

    ipo.listing_date = Some(d(2026, 8, 6));
    ipo.derive_status(today);
    assert_eq!(ipo.status, IpoStatus::Closed);

    ipo.listing_date = Some(d(2026, 8, 5));
    ipo.derive_status(today);
    assert_eq!(ipo.status, IpoStatus::Listed);
}

fn read_prices(close: f64) -> SessionPrices {
    let read = |f: f64| {
        rust_decimal::Decimal::from_f64(f).map(|d| Decimal {
            negative: d.is_sign_negative(),
            mantissa: d.mantissa().unsigned_abs(),
            scale: d.scale(),
        })
    };
    SessionPrices { open: read(1285.0), high: read(1296.4), low: read(1280.1), close: read(close), vwap: read(1290.02) }
}

fn history_row(stamp: Option<&str>, qty: &str) -> JsonValue {
    let mut members = vec![("CH_TOT_TRADED_QTY", JsonValue::Number(qty.to_string()))];
    if let Some(t) = stamp {
        members.push(("mTIMESTAMP", text(t)));
    }
    object(members)
}

#[test]
fn historical_parses_ohlcv() {
    let doc = object(vec![("data", JsonValue::Array(vec![history_row(Some("04-Aug-2026"), "10759546")]))]);
    let rows = history_rows(&doc).unwrap();
    let points: Vec<_> = rows.iter().filter_map(|r| history_point(r, read_prices(1290.9))).collect();
    assert_eq!(points.len(), 1);
    let p = &points[0];
    assert_eq!(p.trade_date, d(2026, 8, 4));
    assert_eq!(p.close_price.map(rd), Some(rust_decimal::Decimal::from_f64(1290.9).unwrap()));
    assert_eq!(p.volume, Some(10759546));
    assert!(p.vwap.is_some());
}

#[test]
fn history_rows_and_quantities() {
    match history_rows(&object(vec![])) {
        Err(Error::Parse(m)) => assert_eq!(m, "historical: data missing"),
        _ => panic!("expected a parse error"),
    }
    assert!(history_point(&history_row(None, "5"), read_prices(1.0)).is_none());
    assert!(history_point(&history_row(Some("not a date"), "5"), read_prices(1.0)).is_none());
    let wrapped = history_point(&history_row(Some("04-Aug-2026"), "18446744073709551615"), read_prices(1.0)).unwrap();
    assert_eq!(wrapped.volume, Some(-1));
    let too_big = history_point(&history_row(Some("04-Aug-2026"), "18446744073709551616"), read_prices(1.0)).unwrap();
    assert_eq!(too_big.volume, None);
    let fractional = history_point(&history_row(Some("04-Aug-2026"), "12.0"), read_prices(1.0)).unwrap();
    assert_eq!(fractional.volume, None);
    assert_eq!(fractional.source, "nse");
    assert_eq!(fractional.ipo_id, Some(0));
}

fn table(rows: &[&[&str]]) -> Vec<Vec<String>> {
    rows.iter().map(|r| r.iter().map(|c| c.to_string()).collect()).collect()
}

#[test]
fn archive_rows_from_tables() {
    let tables = vec![
        table(&[&["Company", "Platform", "IPO Date"], &["Tiny SME Limited", "NSE SME", "6-8 August"]]),
        table(&[
            &[" Company ", " IPO Date ", "IPO Size", "IPO Price Band"],
            &[" Ardee Industries Limited ", "5-7 August", "₹150.75 Cr.", "₹50 to ₹53"],
            &["Dhoot &amp; Co", "10-12 August"],
            &["Kanodia Cement", "18-20 August", "₹[.] Cr."],
        ]),
    ];
    let rows = archive_from_tables(&tables);
    assert_eq!(rows.len(), 2);
    assert_eq!(rows[0].company, "Ardee Industries Limited");
    assert_eq!(rows[0].issue_size.map(rd), Some(rust_decimal::Decimal::from_str_exact("150.75").unwrap()));
    assert_eq!(rows[0].price_band_high.map(rd), Some(rust_decimal::Decimal::from(53)));
    assert_eq!(rows[1].company, "Kanodia Cement");
    assert_eq!(rows[1].issue_size, None);
    assert_eq!(rows[1].price_band_low, None);
}

#[test]
fn detail_from_heading_and_tables() {
    let tables = vec![
        table(&[&["IPO Date", "5-7 Aug"], &["Issue Price", "₹53 per share"], &["Listing Date", "Aug 12"]]),
        table(&[&["Total Issue Size", "5,84,22,516 shares"]]),
    ];
    let det = detail_from_page(
        Some("  Ardee   Industries IPO Details ".to_string()),
        &tables,
        r#"{"symbol":"ARDEE"}"#,
        d(2026, 8, 1),
    );
    assert_eq!(det.company, "Ardee Industries");
    assert_eq!(det.open_date, Some(d(2026, 8, 5)));
    assert_eq!(det.close_date, Some(d(2026, 8, 7)));
    assert_eq!(det.listing_date, Some(d(2026, 8, 12)));
    assert_eq!(det.final_price.map(rd), Some(rust_decimal::Decimal::from(53)));
    assert_eq!(det.shares_offered, Some(58422516));
    assert_eq!(det.symbol.as_deref(), Some("ARDEE"));
    let bare = detail_from_page(None, &vec![], "", d(2026, 8, 1));
    assert_eq!(bare.company, "");
    assert_eq!(bare.symbol, None);
}

#[test]
fn json_text_errors_and_documents() {
    match parse_calendar("[{", d(2026, 8, 5)) {
        Err(Error::Parse(m)) => assert!(m.starts_with("calendar JSON: "), "{m}"),
        _ => panic!("expected a JSON error"),
    }
    match parse_detail("nope", d(2026, 8, 5)) {
        Err(Error::Parse(m)) => assert!(m.starts_with("detail JSON: "), "{m}"),
        _ => panic!("expected a JSON error"),
    }
    match parse_active_cat("") {
        Err(Error::Parse(m)) => assert!(m.starts_with("activeCat JSON: "), "{m}"),
        _ => panic!("expected a JSON error"),
    }
    let text = r#"[{"symbol":"ARDEE","companyName":"Ardee Industries Limited","series":"EQ","issueStartDate":"05-Aug-2026","issueEndDate":"07-Aug-2026","issuePrice":"Rs.50 to Rs.53","issueSize":"58422516"}]"#;
    assert_eq!(parse_calendar(text, d(2026, 8, 5)).unwrap().len(), 1);
    assert_eq!(parse_calendar_doc(&calendar_doc(), d(2026, 8, 5)).unwrap().len(), 1);
    assert_eq!(parse_detail_doc(&detail_doc(true), d(2026, 8, 5)).unwrap().symbol.as_deref(), Some("ARDEE"));
    assert!(parse_active_cat_doc(&object(vec![])).is_err());
}

#[test]
fn detail_status_is_derived_for_today() {
    let mut detail = ChittorgarhDetail::empty();
    detail.company = "Acme".to_string();
    detail.open_date = Some(d(2026, 8, 5));
    detail.close_date = Some(d(2026, 8, 7));
    detail.listing_date = Some(d(2026, 8, 12));
    detail.listing_date_tentative = true;
    let url = "https://www.chittorgarh.com/ipo/acme-ipo/1/";
    let r = detail_to_ipo(&detail, url, d(2026, 8, 10));
    assert_eq!(r.status, IpoStatus::Closed);
    assert_eq!(r.company_name, "Acme");
    assert_eq!(r.source, "chittorgarh");
    assert_eq!(r.detail_url.as_deref(), Some(url));
    assert_eq!(r.listing_date, Some(d(2026, 8, 12)));
    assert!(r.listing_date_tentative);
    assert_eq!(detail_to_ipo(&detail, url, d(2026, 8, 6)).status, IpoStatus::Open);
    assert_eq!(detail_to_ipo(&detail, url, d(2026, 8, 12)).status, IpoStatus::Listed);
}

#[test]
fn history_text_parses_to_a_document() {
    match parse_history_doc("{\"data\": [") {
        Err(Error::Parse(m)) => assert!(m.starts_with("historical JSON: "), "{m}"),
        _ => panic!("expected a JSON error"),
    }
    let doc = parse_history_doc(r#"{"data": []}"#).unwrap();
    assert_eq!(to_text(&doc), r#"{"data":[]}"#);
}

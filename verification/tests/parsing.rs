use mosaic::date::Date;
use mosaic::decimal::{from_u64, Decimal};
use mosaic::format::{indian_grouping, integer, pct_change, rupees, shares, signed_pct, times};
use mosaic::parse_util::{
    parse_month_day, parse_band, parse_day_month_year, parse_int, parse_lot, parse_period, parse_rupees,
};
use mosaic::types::{normalize_company_name, status_for, IpoStatus, SubCategory};

fn d(y: i16, m: i8, day: i8) -> Date {
    Date { year: y, month: m, day }
}

fn rd(d: Decimal) -> rust_decimal::Decimal {
    rust_decimal::Decimal::from_parts(
        d.mantissa as u32,
        (d.mantissa >> 32) as u32,
        (d.mantissa >> 64) as u32,
        d.negative,
        d.scale,
    )
}

fn dec(s: &str) -> Decimal {
    let d = rust_decimal::Decimal::from_str_exact(s).unwrap();
    Decimal { negative: d.is_sign_negative(), mantissa: d.mantissa().unsigned_abs(), scale: d.scale() }
}

fn compare(a: Decimal, b: Decimal) -> i8 {
    let (x, y) = (rd(a), rd(b));
    if x < y {
        -1
    } else if x == y {
        0
    } else {
        1
    }
}

fn same_value(a: Option<Decimal>, b: Option<Decimal>) -> bool {
    match (a, b) {
        (Some(x), Some(y)) => compare(x, y) == 0,
        (None, None) => true,
        _ => false,
    }
}

#[test]
fn status_roundtrip() {
    for s in [
        IpoStatus::Upcoming,
        IpoStatus::Open,
        IpoStatus::Closed,
        IpoStatus::Listed,
        IpoStatus::Withdrawn,
    ] {
        assert_eq!(IpoStatus::parse(s.as_str()), Some(s));
    }
    assert_eq!(IpoStatus::parse("bogus"), None);
    assert_eq!(IpoStatus::parse(""), None);
}

#[test]
fn subcategory_parse_matches_source_vocabulary() {
    assert_eq!(SubCategory::parse("QIB"), Some(SubCategory::Qib));
    assert_eq!(SubCategory::parse("QIB (Ex Anchor)"), Some(SubCategory::Qib));
    assert_eq!(SubCategory::parse("NII"), Some(SubCategory::Nii));
    assert_eq!(SubCategory::parse("Retail"), Some(SubCategory::Retail));
    assert_eq!(SubCategory::parse("Total"), Some(SubCategory::Total));
    assert_eq!(SubCategory::parse("Employees"), None);
}

#[test]
fn normalize_name_strips_suffixes() {
    assert_eq!(normalize_company_name("Ardee Industries Limited"), "ardee industries");
    assert_eq!(normalize_company_name("Anawil Wire & Engineering"), "anawil wire & engineering");
    assert_eq!(normalize_company_name("Lohia Corp"), "lohia corp");
}

#[test]
fn ints_with_indian_grouping() {
    assert_eq!(parse_int("15,72,33,715"), Some(157233715));
    assert_eq!(parse_int("58422516"), Some(58422516));
    assert_eq!(parse_int("abc"), None);
}

#[test]
fn rupees_parsing() {
    assert!(same_value(parse_rupees("Rs. 50"), Some(from_u64(50))));
    assert!(same_value(parse_rupees("₹560 to ₹590"), Some(from_u64(560))));
    let expected = Some(dec("30668900000"));
    assert!(same_value(parse_rupees("₹3,066.89 Cr."), expected));
    assert!(same_value(parse_rupees("₹[.]"), None));
}

#[test]
fn nse_dates() {
    assert_eq!(parse_day_month_year("05-Aug-2026"), Some(d(2026, 8, 5)));
    assert_eq!(parse_day_month_year("Wed, Aug 5, 2026"), Some(d(2026, 8, 5)));
}

#[test]
fn chittorgarh_periods() {
    let today = d(2026, 8, 5);
    assert_eq!(
        parse_period("29 to 31 Jul, 2026", today),
        Some((d(2026, 7, 29), d(2026, 7, 31)))
    );
    assert_eq!(
        parse_period("05-Aug-2026 to 07-Aug-2026", today),
        Some((d(2026, 8, 5), d(2026, 8, 7)))
    );
    let today = d(2026, 8, 5);
    assert_eq!(
        parse_period("30-3 August", today),
        Some((d(2026, 7, 30), d(2026, 8, 3)))
    );
}

#[test]
fn band_and_lot() {
    let band = parse_band("Rs. 50 to Rs. 53").unwrap();
    assert!(compare(band.0, from_u64(50)) == 0 && compare(band.1, from_u64(53)) == 0);
    assert_eq!(parse_lot("Minimum 281 Equity shares and in multiples thereof"), Some((281, 281)));
}

#[test]
fn grouping_is_indian() {
    assert_eq!(indian_grouping("157233715"), "15,72,33,715");
    assert_eq!(indian_grouping("999"), "999");
    assert_eq!(indian_grouping("12345678"), "1,23,45,678");
}

#[test]
fn rupees_formats() {
    assert_eq!(rupees(from_u64(50)), "₹50");
    assert_eq!(rupees(from_u64(306689)), "₹3,06,689");
    assert_eq!(rupees(dec("3066.89")), "₹3,066.89");
}

#[test]
fn rounding_to_zero_drops_sign() {
    let tiny = Decimal { negative: true, mantissa: 1, scale: 3 };
    assert_eq!(times(tiny), "0.00×");
    assert_eq!(signed_pct(tiny), "0.00%");
    assert_eq!(times(dec("2.125")), "2.12×");
    assert_eq!(times(dec("2.135")), "2.14×");
    assert_eq!(signed_pct(dec("9.4339")), "+9.43%");
}

#[test]
fn negative_counts_keep_the_sign_out_of_groups() {
    assert_eq!(integer(-12345), "-12,345");
    assert_eq!(integer(-100), "-100");
    assert_eq!(shares(-157233715), "-15,72,33,715");
    assert_eq!(integer(i64::MIN), "-92,23,37,20,36,85,47,75,808");
    assert_eq!(indian_grouping("-1234"), "-1,234");
    assert_eq!(rupees(dec("-3066.89")), "₹-3,066.89");
}

#[test]
fn whole_legal_suffix_is_stripped() {
    assert_eq!(normalize_company_name("Acme Private Limited"), "acme");
    assert_eq!(normalize_company_name("Acme Pvt Ltd"), "acme");
    assert_eq!(normalize_company_name("Acme Pvt. Ltd."), "acme");
    assert_eq!(normalize_company_name("Acme  Technologies Limited"), "acme");
    assert_eq!(normalize_company_name("Limited"), "limited");
}

#[test]
fn only_unit_words_scale_amounts() {
    assert!(same_value(parse_rupees("₹2 face value"), Some(from_u64(2))));
    assert!(same_value(parse_rupees("₹2 per share (lot)"), Some(from_u64(2))));
    assert!(same_value(parse_rupees("₹5 L"), Some(from_u64(500000))));
    assert!(same_value(parse_rupees("Rs. 3 Lakhs"), Some(from_u64(300000))));
    assert!(same_value(parse_rupees("₹1.5 Crore"), Some(from_u64(15000000))));
}

#[test]
fn month_first_dates_with_and_without_weekday() {
    assert_eq!(parse_month_day("Aug 5, 2026"), Some(d(2026, 8, 5)));
    assert_eq!(parse_month_day("Wed, Aug 5, 2026"), Some(d(2026, 8, 5)));
    assert_eq!(parse_day_month_year("Wed, Aug 5, 2026"), Some(d(2026, 8, 5)));
    assert_eq!(parse_day_month_year("Aug 5, 2026"), Some(d(2026, 8, 5)));
}

#[test]
fn pct_change_is_the_unscaled_ratio() {
    assert_eq!(pct_change(from_u64(100), from_u64(110)).map(rd), Some(rust_decimal::Decimal::from_str_exact("0.1").unwrap()));
    assert_eq!(pct_change(from_u64(0), from_u64(110)), None);
}

#[test]
fn status_open_while_window_runs_and_listing_ahead() {
    let (open, close, listing) = (Some(d(2026, 8, 5)), Some(d(2026, 8, 7)), Some(d(2026, 8, 12)));
    assert_eq!(status_for(open, close, listing, d(2026, 8, 6)), IpoStatus::Open);
    assert_eq!(status_for(open, close, listing, d(2026, 8, 10)), IpoStatus::Closed);
    assert_eq!(status_for(open, close, listing, d(2026, 8, 12)), IpoStatus::Listed);
}

#[test]
fn unicode_white_space_separates_words() {
    assert_eq!(normalize_company_name("Acme\u{00A0}Foods"), "acme foods");
    assert_eq!(normalize_company_name("Acme\u{3000}\u{2009}Foods\u{0085}"), "acme foods");
}

#[test]
fn clock_readings_are_valid_and_ist_leads_utc() {
    let utc = mosaic::date::now_utc();
    let ist = mosaic::date::now_ist();
    assert!(utc.date.is_valid() && ist.date.is_valid());
    let minutes = |t: &mosaic::date::DateTime| t.hour as i32 * 60 + t.minute as i32;
    let lead = (minutes(&ist) - minutes(&utc)).rem_euclid(1440);
    assert!(lead == 330 || lead == 331, "{lead}");
}

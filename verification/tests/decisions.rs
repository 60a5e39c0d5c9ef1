use std::time::Duration;

use mosaic::config::Config;
use mosaic::date::{Date, DateTime};
use mosaic::decimal::{from_u64, Decimal};
use mosaic::error::Error;
use mosaic::format::iso_date;
use mosaic::rate_limit::RateLimiter;
use mosaic::sorting::{sort_ipos, SortCol, SortDir};
use mosaic::store::{
    list_query, migration_failed, migration_plan, needs_name_lookup, plan_ipo_write, schema_guard,
    snapshot_ipo_id, Db, IpoWrite, StatusCounts,
};
use mosaic::sync::{
    backoff_after_outcome, decide_given, decide_task, run_time_key, failure_note, idle_wait, ipo_fields_equal, needs_write, next_backoff,
    poll_targets, run_verdict, source_run_record, subscriptions_differ, sync_counts, sync_result, SyncOutcome,
    SyncTask,
};
use mosaic::types::{Ipo, IpoStatus, PricePoint, RunStatus, SubCategory, SubscriptionSnapshot};
use mosaic::view::{
    chart_outline, chevron, doc_links, expanded_after_click, list_row, listing_header, listing_line, overview, overview_checked, performance,
    rule_under, sidebar_status, statusbar_status, sub_row, subscription_panel,
    subscription_panel_checked, titlebar_status, PerformanceView, PriceTone, StatusTone, SyncState,
    Tone,
};

fn d(y: i16, m: i8, day: i8) -> Date {
    Date { year: y, month: m, day }
}

fn at(date: Date, hour: i8, minute: i8) -> DateTime {
    DateTime { date, hour, minute, second: 0, subsec_nanosecond: 0 }
}

fn rd(d: Decimal) -> rust_decimal::Decimal {
    rust_decimal::Decimal::from_parts(
        d.mantissa as u32,
        (d.mantissa >> 32) as u32,
        (d.mantissa >> 64) as u32,
        d.negative,
        d.scale,
    )
}

fn dec(s: &str) -> Decimal {
    let d = rust_decimal::Decimal::from_str_exact(s).unwrap();
    Decimal { negative: d.is_sign_negative(), mantissa: d.mantissa().unsigned_abs(), scale: d.scale() }
}

fn compare(a: Decimal, b: Decimal) -> i8 {
    let (x, y) = (rd(a), rd(b));
    if x < y {
        -1
    } else if x == y {
        0
    } else {
        1
    }
}

fn snap(day: Date, cat: SubCategory, times: &str) -> SubscriptionSnapshot {
    let mut s = SubscriptionSnapshot::new(1, day, cat, "nse");
    s.times_subscribed = Some(dec(times));
    s
}

fn ardee() -> Ipo {
    let mut ipo = Ipo::new("Ardee Industries Limited", "nse");
    ipo.id = Some(1);
    ipo.symbol = Some("ARDEE".to_string());
    ipo.exchange = Some("NSE".to_string());
    ipo.status = IpoStatus::Open;
    ipo.price_band_low = Some(from_u64(50));
    ipo.price_band_high = Some(from_u64(53));
    ipo.lot_size = Some(281);
    ipo.issue_size_cr = Some(dec("150.75"));
    ipo.issue_type = Some("100% Book Building".to_string());
    ipo.open_date = Some(d(2026, 8, 5));
    ipo.close_date = Some(d(2026, 8, 7));
    ipo
}

#[test]
fn defaults_load_without_file() {
    let cfg = Config::default();
    assert_eq!(cfg.sync_interval_minutes, Some(360));
    assert_eq!(cfg.subscription_poll_hour, Some(18));
    assert_eq!(cfg.eod_pull_hour, Some(19));
    assert_eq!(cfg.theme.as_deref(), Some("one-dark"));
}

/// Let `d` pass on the monotonic clock.
fn spin(d: Duration) {
    let t = std::time::Instant::now();
    while t.elapsed() < d {}
}

/// What the program does before each request: wait out what the limiter
/// asks for, then record the request.
fn wait(limiter: &mut RateLimiter) {
    if let Some(d) = limiter.pending_wait() {
        spin(d);
    }
    limiter.mark_request();
}

#[test]
fn first_call_does_not_sleep() {
    let mut limiter = RateLimiter::new(Duration::from_secs(60));
    let start = std::time::Instant::now();
    assert!(limiter.pending_wait().is_none());
    wait(&mut limiter);
    assert!(start.elapsed() < Duration::from_millis(100));
}

#[test]
fn second_call_sleeps_to_min_interval() {
    let mut limiter = RateLimiter::new(Duration::from_millis(80));
    wait(&mut limiter);
    spin(Duration::from_millis(20));
    let start = std::time::Instant::now();
    let asked = limiter.pending_wait().expect("the limiter must ask to wait");
    assert!(asked <= Duration::from_millis(60));
    wait(&mut limiter);
    // Allow clock/precision slack; the limiter must sleep the gap.
    assert!(start.elapsed() >= Duration::from_millis(50));
}

#[test]
fn backoff_doubles_up_to_an_hour() {
    assert_eq!(next_backoff(Duration::ZERO), Duration::from_secs(30));
    assert_eq!(next_backoff(Duration::from_secs(30)), Duration::from_secs(60));
    assert_eq!(next_backoff(Duration::from_secs(45 * 60)), Duration::from_secs(3600));
    assert_eq!(next_backoff(Duration::from_secs(3600)), Duration::from_secs(3600));
    assert_eq!(idle_wait(Duration::ZERO), Duration::from_secs(60));
    assert_eq!(idle_wait(Duration::from_secs(120)), Duration::from_secs(120));
}

#[test]
fn clock_decides_the_due_task() {
    let today = d(2026, 8, 5);
    let yesterday = d(2026, 8, 4);
    assert_eq!(decide_task(at(today, 18, 15), None, None, None), Some(SyncTask::Subscription));
    assert_eq!(
        decide_task(at(today, 18, 15), None, Some(at(today, 18, 1)), None),
        Some(SyncTask::Calendar)
    );
    assert_eq!(
        decide_task(at(today, 19, 45), Some(at(today, 6, 0)), None, Some(at(yesterday, 19, 31))),
        Some(SyncTask::Eod)
    );
    assert_eq!(decide_task(at(today, 19, 10), Some(at(today, 15, 0)), None, None), None);
    assert_eq!(decide_task(at(today, 19, 10), Some(at(today, 6, 0)), None, None), Some(SyncTask::Calendar));
    assert_eq!(
        decide_task(at(today, 12, 0), Some(at(yesterday, 5, 0)), None, None),
        Some(SyncTask::Calendar)
    );
    // "1 day 2 hours" is 26 hours: due.
    assert_eq!(decide_task(at(today, 12, 0), Some(at(yesterday, 10, 0)), None, None), Some(SyncTask::Calendar));
    // Every six hours: a run at 08:00 makes the calendar due again at 15:00.
    let ran = Some(at(today, 10, 0));
    assert_eq!(decide_task(at(today, 15, 0), Some(at(today, 8, 0)), ran, ran), Some(SyncTask::Calendar));
    assert_eq!(decide_task(at(today, 15, 0), Some(at(yesterday, 13, 0)), ran, ran), Some(SyncTask::Calendar));
    assert_eq!(decide_task(at(today, 13, 0), Some(at(today, 8, 0)), ran, ran), None);
}

#[test]
fn due_task_from_hours_since_calendar() {
    let today = d(2026, 8, 5);
    let yesterday = d(2026, 8, 4);
    let earlier_today = Some(at(today, 10, 0));
    assert_eq!(decide_given(at(today, 12, 0), Some(2), earlier_today, None, None), None);
    assert_eq!(decide_given(at(today, 16, 0), Some(6), earlier_today, None, None), Some(SyncTask::Calendar));
    assert_eq!(decide_given(at(today, 12, 0), None, None, None, None), Some(SyncTask::Calendar));
    // Not yet run today: due whatever the hours.
    assert_eq!(decide_given(at(today, 1, 0), Some(2), Some(at(yesterday, 23, 0)), None, None), Some(SyncTask::Calendar));
    assert_eq!(decide_given(at(today, 18, 0), Some(0), earlier_today, None, None), Some(SyncTask::Subscription));
}

#[test]
fn run_records_and_notes() {
    let (status, notes) = run_verdict(&vec![]);
    assert_eq!(status, RunStatus::Success);
    assert_eq!(notes, None);
    let errors = vec![failure_note("Ardee", "HTTP 503", false), failure_note("Dhoot", "locked", true)];
    assert_eq!(errors[0], "Ardee: HTTP 503");
    assert_eq!(errors[1], "Dhoot: db locked");
    let (status, notes) = run_verdict(&errors);
    assert_eq!(status, RunStatus::Partial);
    assert_eq!(notes.as_deref(), Some("Ardee: HTTP 503; Dhoot: db locked"));
    let ok = source_run_record(Ok(12));
    assert_eq!((ok.status, ok.records_written, ok.notes), (RunStatus::Success, 12, None));
    let failed = source_run_record(Err("HTTP request failed: timeout".to_string()));
    assert_eq!(failed.status, RunStatus::Failed);
    assert_eq!(failed.records_written, 0);
    assert_eq!(failed.notes.as_deref(), Some("HTTP request failed: timeout"));
    let outcome = SyncOutcome::default();
    assert_eq!((outcome.ipos, outcome.subs, outcome.prices), (0, 0, 0));
}

#[test]
fn sync_summary_counts_skipped() {
    let r = sync_result("chittorgarh", 15, 4);
    assert_eq!(r.skipped, 11);
    assert_eq!(r.summary(), "chittorgarh: 15 IPOs, 4 updated, 11 skipped");
}

#[test]
fn poll_visits_ipos_with_symbols() {
    let mut a = Ipo::new("A", "nse");
    a.symbol = Some("A".to_string());
    let b = Ipo::new("B", "nse");
    let mut c = Ipo::new("C", "nse");
    c.symbol = Some("C".to_string());
    assert_eq!(poll_targets(&vec![a, b, c]), vec![0, 2]);
}

#[test]
fn snapshot_changes_are_detected() {
    let day = d(2026, 8, 6);
    let latest = vec![snap(day, SubCategory::Qib, "2.1"), snap(day, SubCategory::Total, "4.2")];
    assert!(!subscriptions_differ(&latest, &vec![]));
    assert!(subscriptions_differ(&vec![], &latest));
    let same = vec![snap(day, SubCategory::Qib, "2.10"), snap(day, SubCategory::Total, "4.2")];
    assert!(!subscriptions_differ(&latest, &same));
    let changed = vec![snap(day, SubCategory::Qib, "2.1"), snap(day, SubCategory::Total, "4.8")];
    assert!(subscriptions_differ(&latest, &changed));
    let fewer = vec![snap(day, SubCategory::Total, "4.2")];
    assert!(subscriptions_differ(&latest, &fewer));
}

#[test]
fn unchanged_ipo_is_not_rewritten() {
    let stored = ardee();
    let mut scraped = ardee();
    scraped.price_band_low = Some(dec("50.00"));
    assert!(ipo_fields_equal(&stored, &scraped));
    assert!(!needs_write(Some(&stored), &scraped));
    scraped.status = IpoStatus::Closed;
    assert!(!ipo_fields_equal(&stored, &scraped));
    assert!(needs_write(None, &scraped));
}

#[test]
fn migrations_plan_and_guard() {
    match migration_plan(0, 1) {
        Ok(Some((from, to))) => assert_eq!((from, to), (0, 1)),
        _ => panic!("expected migrations to apply"),
    }
    assert!(matches!(migration_plan(1, 1), Ok(None)));
    match migration_plan(2, 1) {
        Err(Error::Migration(m)) => {
            assert_eq!(m, "database schema version 2 is newer than this binary supports (1)")
        },
        _ => panic!("expected a migration error"),
    }
    assert!(migration_plan(-1, 1).is_err());
    assert!(schema_guard(0).is_err());
    assert!(schema_guard(1).is_ok());
    match migration_failed(1, "no such table") {
        Error::Migration(m) => assert_eq!(m, "migration 1 failed: no such table"),
        _ => panic!("expected a migration error"),
    }
    assert_eq!(Db::at("/tmp/mosaic.db").path(), "/tmp/mosaic.db");
}

#[test]
fn list_query_filters() {
    let cols = "id, company_name, normalized_name, symbol, exchange, sector, status, price_band_low, price_band_high, final_price, face_value, lot_size, lot_multiples, issue_size_cr, shares_offered, fresh_issue_shares, ofs_shares, issue_type, offer_type, open_date, close_date, allotment_date, listing_date, listing_date_tentative, drhp_url, rhp_url, detail_url, source, ingested_at, updated_at";
    let (sql, params) = list_query(None, None);
    assert_eq!(sql, format!("SELECT {cols} FROM ipos ORDER BY open_date IS NULL, open_date ASC, id ASC"));
    assert!(params.is_empty());
    let (sql, params) = list_query(Some(IpoStatus::Closed), Some("  Manipal "));
    assert_eq!(
        sql,
        format!("SELECT {cols} FROM ipos WHERE status = ? AND (company_name LIKE ? OR normalized_name LIKE ?) ORDER BY open_date IS NULL, open_date ASC, id ASC")
    );
    assert_eq!(params, vec!["closed".to_string(), "%manipal%".to_string(), "%manipal%".to_string()]);
    let (sql, params) = list_query(None, Some("   "));
    assert!(!sql.contains("WHERE"));
    assert!(params.is_empty());
}

#[test]
fn upsert_matches_symbol_then_name() {
    let mut ipo = ardee();
    let earlier = at(d(2026, 8, 1), 9, 0);
    let now = at(d(2026, 8, 5), 10, 0);
    ipo.updated_at = earlier;
    assert!(!needs_name_lookup(&ipo, Some(3)));
    assert!(needs_name_lookup(&ipo, None));
    assert_eq!(plan_ipo_write(&ipo, Some(3), Some(4), now), IpoWrite::Update { id: 3, updated_at: now });
    assert_eq!(plan_ipo_write(&ipo, None, Some(4), now), IpoWrite::Update { id: 4, updated_at: now });
    ipo.symbol = None;
    assert_eq!(plan_ipo_write(&ipo, Some(3), None, now), IpoWrite::Insert { updated_at: now });
    ipo.updated_at = at(d(2026, 8, 9), 0, 0);
    assert_eq!(
        plan_ipo_write(&ipo, None, None, now),
        IpoWrite::Insert { updated_at: at(d(2026, 8, 9), 0, 0) }
    );
    let s = SubscriptionSnapshot::new(5, d(2026, 8, 5), SubCategory::Total, "nse");
    assert_eq!(snapshot_ipo_id(&s).ok(), Some(5));
    let mut orphan = s.clone();
    orphan.ipo_id = None;
    match snapshot_ipo_id(&orphan) {
        Err(Error::Other(m)) => assert_eq!(m, "snapshot missing ipo_id"),
        _ => panic!("expected the missing-id error"),
    }
}

#[test]
fn status_counts_from_grouped_rows() {
    let rows = vec![("open".to_string(), 2), ("closed".to_string(), 5), ("withdrawn".to_string(), 1)];
    let c = StatusCounts::from_rows(&rows);
    assert_eq!(c, StatusCounts { upcoming: 0, open: 2, closed: 5, listed: 0 });
    assert_eq!(StatusCounts::default(), StatusCounts { upcoming: 0, open: 0, closed: 0, listed: 0 });
}

#[test]
fn list_row_cells() {
    let ipo = ardee();
    let mut total = snap(d(2026, 8, 6), SubCategory::Total, "3.28");
    total.offered_shares = Some(81791301);
    let row = list_row(&ipo, &vec![snap(d(2026, 8, 6), SubCategory::Qib, "2.11"), total.clone()]);
    assert_eq!(row.band, "₹50 – ₹53");
    assert_eq!(row.lot, "281");
    assert_eq!(row.size, "₹150.75");
    assert_eq!(row.subscription, "3.28×");
    assert_eq!(row.window, "5 Aug 2026 → 7 Aug 2026");
    let empty = list_row(&Ipo::new("X", "nse"), &vec![]);
    assert_eq!((empty.band, empty.subscription, empty.window), ("—".to_string(), "—".to_string(), "—".to_string()));
    let line = sub_row(&total);
    assert_eq!(line.category, "TOTAL");
    assert_eq!(line.times, "3.28×");
    assert_eq!(line.offered, "offered 8,17,91,301");
    assert_eq!(line.bid, "bid —");
}

#[test]
fn overview_facts_and_links() {
    let mut ipo = ardee();
    ipo.rhp_url = Some("https://nsearchives.nseindia.com/RHP_ARDEE.zip".to_string());
    ipo.detail_url = Some("https://www.chittorgarh.com/ipo/ardee-industries-ipo/2860/".to_string());
    let o = overview(&ipo);
    assert_eq!(o.meta, "100% Book Building | NSE | 5 Aug 2026 – 7 Aug 2026");
    assert_eq!(o.price_band, "₹50 – ₹53");
    assert_eq!(o.min_investment, "₹14,893");
    assert_eq!(o.lot_size, "281 shares");
    assert_eq!(o.issue_size, "₹150.75 Cr");
    assert_eq!(o.final_price, "—");
    assert_eq!(o.listing, "TBA");
    assert_eq!(o.status, "open");
    assert!(overview_checked(&ipo).is_some());
    let links = doc_links(&ipo);
    assert_eq!(links.len(), 3);
    assert_eq!(links[0].0, "Red Herring Prospectus (RHP)");
    assert_eq!(links[1].1, None);
    assert_eq!(links[2].0, "Chittorgarh detail page");
}

#[test]
fn subscription_grid_and_bars() {
    let day1 = d(2026, 8, 5);
    let day2 = d(2026, 8, 6);
    let subs = vec![
        snap(day2, SubCategory::Qib, "2.1"),
        snap(day1, SubCategory::Total, "0.5"),
        snap(day2, SubCategory::Nii, "1.4"),
        snap(day2, SubCategory::Retail, "8.9"),
        snap(day2, SubCategory::Total, "4.2"),
    ];
    let p = subscription_panel(&subs);
    assert_eq!(p.days, vec![day1, day2]);
    assert_eq!(p.title, "SUBSCRIPTION — 2 polls");
    assert_eq!(p.day_labels, vec!["5 Aug 2026".to_string(), "6 Aug 2026".to_string()]);
    assert_eq!(p.rows[0].label, "QIB");
    assert_eq!(p.rows[0].cells[0].text, "–");
    assert_eq!(p.rows[0].cells[0].tone, Tone::Empty);
    assert_eq!(p.rows[0].cells[1].text, "2.1×");
    assert_eq!(p.rows[0].cells[1].tone, Tone::Hot);
    assert_eq!(p.rows[3].cells[0].text, "0.5×");
    assert_eq!(p.rows[3].cells[0].tone, Tone::Cold);
    let fill = |k: usize| p.bars[k].fill_percent.map(|x| compare(x, from_u64(0)) >= 0 && compare(x, from_u64(100)) <= 0);
    assert_eq!(fill(0), Some(true));
    assert_eq!(compare(p.bars[2].fill_percent.unwrap(), from_u64(100)), 0);
    assert_eq!(compare(p.bars[0].fill_percent.unwrap(), from_u64(24)), 0);
    assert_eq!(compare(p.bars[3].fill_percent.unwrap(), from_u64(47)), 0);
    assert_eq!(p.bars[3].text, "4.2×");
    assert!(subscription_panel_checked(&subs).is_some());
    let none = subscription_panel(&vec![]);
    assert!(none.days.is_empty());
    assert_eq!(none.bars[0].text, "–");
    assert_eq!(none.bars[0].fill_percent, None);
}

#[test]
fn performance_gains_and_sessions() {
    let mut ipo = ardee();
    ipo.status = IpoStatus::Listed;
    ipo.final_price = Some(from_u64(53));
    match performance(&ipo, &vec![]) {
        PerformanceView::Empty(note) => assert_eq!(note, "No price history yet — EOD pulls start at 19:30."),
        _ => panic!("expected the empty note"),
    }
    let mut p1 = PricePoint::new(1, d(2026, 8, 11), "nse");
    p1.close_price = Some(from_u64(58));
    let mut p2 = PricePoint::new(1, d(2026, 8, 12), "nse");
    p2.close_price = Some(from_u64(51));
    p2.volume = Some(10759546);
    match performance(&ipo, &vec![p1, p2]) {
        PerformanceView::Prices(p) => {
            assert_eq!(p.issue_price, "₹53");
            assert_eq!(p.listing_close, "₹58");
            assert_eq!(p.listing_gain, "+9.43%");
            assert_eq!(p.current_close, "₹51");
            assert_eq!(p.current_gain, "-3.77%");
            assert_eq!(p.rows.len(), 2);
            assert_eq!(p.rows[0].date, "12 Aug 2026");
            assert_eq!(p.rows[0].close, "51");
            assert_eq!(p.rows[0].volume, "1,07,59,546");
            assert_eq!(p.rows[0].close_tone, PriceTone::Down);
            assert_eq!(p.rows[1].close_tone, PriceTone::Up);
            assert_eq!(p.rows[1].open, "—");
        },
        _ => panic!("expected prices"),
    }
}

#[test]
fn manual_request_and_success_reset_backoff() {
    let eight = Duration::from_secs(8 * 60);
    assert_eq!(backoff_after_outcome(eight, true, false), Duration::ZERO);
    assert_eq!(backoff_after_outcome(eight, false, true), Duration::ZERO);
    assert_eq!(backoff_after_outcome(eight, false, false), Duration::from_secs(16 * 60));
    assert_eq!(backoff_after_outcome(Duration::ZERO, false, false), Duration::from_secs(30));
    assert_eq!(run_time_key(SyncTask::Calendar), "last_calendar_at");
    assert_eq!(run_time_key(SyncTask::Subscription), "last_sub_at");
    assert_eq!(run_time_key(SyncTask::Eod), "last_eod_at");
}

#[test]
fn row_arrow_toggles_breakdown() {
    assert_eq!(chevron(true), "▾");
    assert_eq!(chevron(false), "▸");
    assert_eq!(expanded_after_click(None, Some(4)), Some(4));
    assert_eq!(expanded_after_click(Some(4), Some(4)), None);
    assert_eq!(expanded_after_click(Some(2), Some(4)), Some(4));
}

#[test]
fn chart_range_takes_in_issue_price() {
    let mut p1 = PricePoint::new(1, d(2026, 8, 11), "nse");
    p1.close_price = Some(dec("58.5"));
    let p2 = PricePoint::new(1, d(2026, 8, 12), "nse");
    let mut p3 = PricePoint::new(1, d(2026, 8, 13), "nse");
    p3.close_price = Some(from_u64(51));
    let prices = vec![p1, p2, p3];
    let chart = chart_outline(&prices, Some(from_u64(53)));
    assert_eq!(chart.closes, vec![dec("58.5"), from_u64(51)]);
    assert_eq!(chart.range, Some((from_u64(51), dec("58.5"))));
    assert_eq!(chart.reference_tone, PriceTone::Down);
    let wide = chart_outline(&prices, Some(from_u64(40)));
    assert_eq!(wide.range, Some((from_u64(40), dec("58.5"))));
    assert_eq!(wide.reference_tone, PriceTone::Up);
    let plain = chart_outline(&prices, None);
    assert_eq!(plain.reference_tone, PriceTone::Plain);
    let nothing = chart_outline(&vec![], None);
    assert_eq!(nothing.range, None);
    let only_issue = chart_outline(&vec![], Some(from_u64(53)));
    assert_eq!(only_issue.range, Some((from_u64(53), from_u64(53))));
    assert_eq!(only_issue.reference_tone, PriceTone::Up);
}

#[test]
fn sync_status_lines() {
    let mut s = SyncState { syncing: true, last_error: None, synced_secs_ago: None, last_calendar_at: None };
    assert_eq!(titlebar_status(&s), ("Syncing…".to_string(), StatusTone::Active));
    s.syncing = false;
    assert_eq!(titlebar_status(&s), ("Not synced yet".to_string(), StatusTone::Muted));
    assert_eq!(sidebar_status(&s), ("Not synced".to_string(), StatusTone::Disabled));
    assert_eq!(statusbar_status(&s), "not synced");
    s.synced_secs_ago = Some(42);
    assert_eq!(titlebar_status(&s).0, "Synced 42s ago");
    s.synced_secs_ago = Some(600);
    assert_eq!(titlebar_status(&s).0, "Synced 10m ago");
    assert_eq!(sidebar_status(&s).0, "✓ Synced 10m ago");
    s.last_calendar_at = Some(at(d(2026, 8, 5), 9, 30));
    assert_eq!(statusbar_status(&s), "calendar 2026-08-05 · NSE + Chittorgarh + IPO Watch");
    s.last_error = Some("HTTP request failed: 503".to_string());
    assert_eq!(titlebar_status(&s), ("⚠ HTTP request failed: 503".to_string(), StatusTone::Error));
    assert_eq!(statusbar_status(&s), "⚠ HTTP request failed: 503");
}

#[test]
fn command_line_listing() {
    let header = listing_header();
    assert_eq!(
        header,
        format!(
            "{:<4} {:<28} {:<5} {:<18} {:<11} {:<12} {:<12}",
            "ID", "Company", "Exch", "Price Band", "Status", "Open Date", "Close Date"
        )
    );
    assert_eq!(rule_under(&header), "-".repeat(header.len()));
    let line = listing_line(&ardee());
    assert_eq!(
        line,
        format!(
            "{:<4} {:<28} {:<5} {:<18} {:<11} {:<12} {:<12}",
            "1", "Ardee Industries Limited", "NSE", "₹50 - ₹53", "open", "2026-08-05", "2026-08-07"
        )
    );
    assert_eq!(iso_date(d(-5, 1, 2)), "-000005-01-02");
}

#[test]
fn sorting_by_columns() {
    let mk = |name: &str, lot: Option<i64>, open: Option<Date>| {
        let mut i = Ipo::new(name, "nse");
        i.lot_size = lot;
        i.open_date = open;
        i
    };
    let names = |v: &Vec<Ipo>| v.iter().map(|i| i.company_name.clone()).collect::<Vec<_>>();
    let mut v = vec![
        mk("beta", Some(20), Some(d(2026, 8, 5))),
        mk("Alpha", None, None),
        mk("gamma", Some(10), Some(d(2026, 7, 1))),
    ];
    sort_ipos(&mut v, SortCol::Name, SortDir::Asc);
    assert_eq!(names(&v), vec!["Alpha", "beta", "gamma"]);
    sort_ipos(&mut v, SortCol::Lot, SortDir::Asc);
    assert_eq!(names(&v), vec!["Alpha", "gamma", "beta"]);
    sort_ipos(&mut v, SortCol::OpenDate, SortDir::Desc);
    assert_eq!(names(&v), vec!["beta", "gamma", "Alpha"]);
    sort_ipos(&mut v, SortCol::Subscription, SortDir::Desc);
    assert_eq!(names(&v), vec!["beta", "gamma", "Alpha"]);
}

#[test]
fn changed_records_are_counted() {
    let a = ardee();
    let mut b = ardee();
    b.lot_size = Some(300);
    let c = Ipo::new("Lohia Corp", "nse");
    let stored = vec![Some(a.clone()), Some(a.clone()), None];
    let scraped = vec![a.clone(), b, c];
    assert_eq!(sync_counts(&stored, &scraped, &vec![false, false, false]), (2, 1));
    assert_eq!(sync_counts(&vec![], &vec![], &vec![]), (0, 0));
}

#[test]
fn subscription_changes_count_as_updates() {
    let a = ardee();
    let stored = vec![Some(a.clone()), Some(a.clone())];
    let scraped = vec![a.clone(), a.clone()];
    assert_eq!(sync_counts(&stored, &scraped, &vec![false, false]), (0, 2));
    assert_eq!(sync_counts(&stored, &scraped, &vec![true, false]), (1, 1));
    let mut b = ardee();
    b.lot_size = Some(300);
    let scraped = vec![b, a.clone()];
    assert_eq!(sync_counts(&stored, &scraped, &vec![true, true]), (2, 0));
}

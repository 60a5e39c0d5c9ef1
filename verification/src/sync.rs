//! The decisions of the background sync: which task is due, how long to
//! back off after a failure, whether scraped data changed, and how a run is
//! recorded.

use vstd::prelude::*;

use std::collections::HashMap;
use std::time::Duration;

use crate::date::{
    date_le, now_ist, span_days_component, span_days_hours, span_hours_component, DateTime,
};
use crate::decimal::{compare, value_eq, Decimal};
use crate::ipowatch::{join_pieces, join_with};
use crate::text::{chars_of, string_from};
use crate::timing::{duration_nanos, from_secs, nanos, scaled, second};
use crate::types::{opt_date_eq, Ipo, RunStatus, SubCategory, SubscriptionSnapshot};

verus! {

// ---------------------------------------------------------------------------
// Scheduling
// ---------------------------------------------------------------------------

/// What the background loop runs next.
#[derive(Debug, Clone, Copy, PartialEq, Eq, Structural)]
pub enum SyncTask {
    Calendar,
    Subscription,
    Eod,
}

/// Whether a run stamped `at` happened on day `now.date`.
pub open spec fn ran_today(at: Option<DateTime>, now: DateTime) -> bool {
    at matches Some(d) && d.date == now.date
}

/// The task due at `now`, given the whole hours elapsed since the last
/// calendar run (none when it never ran): the subscription poll in the
/// 18:00 hour, the EOD pull from 19:30 to 19:59, each once a day; otherwise
/// the calendar every six hours, or when it has not run today.
pub open spec fn due_task_given(
    now: DateTime,
    calendar_hours: Option<int>,
    last_calendar: Option<DateTime>,
    last_sub: Option<DateTime>,
    last_eod: Option<DateTime>,
) -> Option<SyncTask> {
    if now.hour == 18 && !ran_today(last_sub, now) {
        Some(SyncTask::Subscription)
    } else if now.hour == 19 && now.minute >= 30 && !ran_today(last_eod, now) {
        Some(SyncTask::Eod)
    } else {
        let due = match calendar_hours {
            Some(h) => h >= 6,
            None => true,
        };
        if due || !ran_today(last_calendar, now) {
            Some(SyncTask::Calendar)
        } else {
            None
        }
    }
}

/// The whole hours of the span from `earlier` to `now`, as `jiff` measures
/// it: 24 for each day of the span and its hours.
pub open spec fn hours_between(now: DateTime, earlier: DateTime) -> int {
    24 * span_days_component(now, earlier) + span_hours_component(now, earlier)
}

/// The task due at `now`, the hours since the last calendar run measured
/// as `jiff` spans them.
pub open spec fn due_task(
    now: DateTime,
    last_calendar: Option<DateTime>,
    last_sub: Option<DateTime>,
    last_eod: Option<DateTime>,
) -> Option<SyncTask> {
    let hours = match last_calendar {
        Some(l) => Some(hours_between(now, l)),
        None => None,
    };
    due_task_given(now, hours, last_calendar, last_sub, last_eod)
}

fn ran_on(at: Option<DateTime>, now: DateTime) -> (r: bool)
    ensures
        r == ran_today(at, now),
{
    match at {
        Some(d) => d.date == now.date,
        None => false,
    }
}

/// The task due at `now`, given the whole hours since the last calendar run
/// (none when it never ran) and when each task last ran.
pub fn decide_given(
    now: DateTime,
    calendar_hours: Option<i64>,
    last_calendar: Option<DateTime>,
    last_sub: Option<DateTime>,
    last_eod: Option<DateTime>,
) -> (r: Option<SyncTask>)
    ensures
        r == due_task_given(
            now,
            match calendar_hours {
                Some(h) => Some(h as int),
                None => None,
            },
            last_calendar,
            last_sub,
            last_eod,
        ),
{
    if now.hour == 18 && !ran_on(last_sub, now) {
        return Some(SyncTask::Subscription);
    }
    if now.hour == 19 && now.minute >= 30 && !ran_on(last_eod, now) {
        return Some(SyncTask::Eod);
    }
    let due = match calendar_hours {
        Some(h) => h >= 6,
        None => true,
    };
    if due || !ran_on(last_calendar, now) {
        Some(SyncTask::Calendar)
    } else {
        None
    }
}

/// The task due at `now`, given when each task last ran.
pub fn decide_task(
    now: DateTime,
    last_calendar: Option<DateTime>,
    last_sub: Option<DateTime>,
    last_eod: Option<DateTime>,
) -> (r: Option<SyncTask>)
    requires
        now.wf(),
        last_calendar matches Some(d) ==> d.wf(),
    ensures
        r == due_task(now, last_calendar, last_sub, last_eod),
{
    let hours = match last_calendar {
        Some(l) => {
            let (days, h) = span_days_hours(now, l);
            Some(24 * (days as i64) + (h as i64))
        },
        None => None,
    };
    decide_given(now, hours, last_calendar, last_sub, last_eod)
}

/// The task due now, as the clock reads in Indian Standard Time: the
/// decision of `decide_task` for some well-formed current datetime. The
/// last-run times must be IST readings too (`now_ist`).
pub fn decide_by_clock(
    last_calendar: Option<DateTime>,
    last_sub: Option<DateTime>,
    last_eod: Option<DateTime>,
) -> (r: Option<SyncTask>)
    requires
        last_calendar matches Some(d) ==> d.wf(),
    ensures
        exists|now: DateTime| now.wf() && r == due_task(now, last_calendar, last_sub, last_eod),
{
    let now = now_ist();
    decide_task(now, last_calendar, last_sub, last_eod)
}

/// The wait after `n` nanoseconds of backoff fail again: 30 s after none,
/// otherwise twice as long, at most an hour.
pub open spec fn backoff_after(n: nat) -> nat {
    if n == 0 {
        30 * second()
    } else if 2 * n <= 3600 * second() {
        2 * n
    } else {
        3600 * second()
    }
}

/// The backoff after another failed run.
pub fn next_backoff(backoff: Duration) -> (r: Duration)
    requires
        duration_nanos(backoff) * 2 <= crate::timing::duration_limit(),
    ensures
        duration_nanos(r) == backoff_after(duration_nanos(backoff)),
{
    if nanos(backoff) == 0 {
        from_secs(30)
    } else {
        let doubled = scaled(backoff, 2);
        let cap = from_secs(3600);
        if nanos(doubled) <= nanos(cap) {
            doubled
        } else {
            cap
        }
    }
}

/// The backoff never exceeds an hour, never drops to zero, and never
/// shrinks while it is below the cap.
pub proof fn lemma_backoff_bounded(n: nat)
    ensures
        0 < backoff_after(n) <= 3600 * second(),
        n <= 3600 * second() ==> n <= backoff_after(n),
{
}

// ---------------------------------------------------------------------------
// Run records
// ---------------------------------------------------------------------------

/// How a run that collected `errors` is recorded: success with no notes
/// when there were none, else partial with the errors joined by "; ".
pub open spec fn run_verdict_spec(errors: Seq<Seq<char>>) -> (RunStatus, Option<Seq<char>>) {
    if errors.len() == 0 {
        (RunStatus::Success, None)
    } else {
        (RunStatus::Partial, Some(join_with(errors, "; "@)))
    }
}

/// The status and notes of a run that collected `errors`.
pub fn run_verdict(errors: &Vec<String>) -> (r: (RunStatus, Option<String>))
    ensures
        r.0 == run_verdict_spec(errors@.map_values(|e: String| e@)).0,
        crate::chittorgarh::opt_text(r.1) == run_verdict_spec(errors@.map_values(|e: String| e@)).1,
{
    if errors.len() == 0 {
        return (RunStatus::Success, None);
    }
    let mut pieces: Vec<Vec<char>> = Vec::new();
    let mut i: usize = 0;
    while i < errors.len()
        invariant
            i <= errors.len(),
            pieces.len() == i,
            forall|k: int| 0 <= k < i ==> (#[trigger] pieces@[k])@ == errors@[k]@,
        decreases errors.len() - i,
    {
        pieces.push(chars_of(errors[i].as_str()));
        i = i + 1;
    }
    assert(pieces@.map_values(|p: Vec<char>| p@) =~= errors@.map_values(|e: String| e@));
    let sep = chars_of("; ");
    let joined = join_pieces(&pieces, &sep);
    (RunStatus::Partial, Some(string_from(&joined)))
}

/// The note for one IPO that failed: "company: error", or
/// "company: db error" when storing failed.
pub fn failure_note(company: &str, error: &str, storing: bool) -> (r: String)
    ensures
        r@ == company@ + ": "@ + (if storing { "db "@ } else { Seq::empty() }) + error@,
{
    let mut v = chars_of(company);
    crate::format::append(&mut v, &chars_of(": "));
    if storing {
        crate::format::append(&mut v, &chars_of("db "));
    }
    crate::format::append(&mut v, &chars_of(error));
    assert(v@ =~= company@ + ": "@ + (if storing { "db "@ } else { Seq::empty() }) + error@);
    string_from(&v)
}

/// The positions of the IPOs a per-IPO poll visits: those with a symbol,
/// in order.
pub open spec fn with_symbol(ipos: Seq<Ipo>) -> Seq<int>
    decreases ipos.len(),
{
    if ipos.len() == 0 {
        Seq::empty()
    } else if ipos.last().symbol is Some {
        with_symbol(ipos.drop_last()).push(ipos.len() - 1)
    } else {
        with_symbol(ipos.drop_last())
    }
}

/// The positions of the IPOs that have a symbol.
pub fn poll_targets(ipos: &Vec<Ipo>) -> (r: Vec<usize>)
    ensures
        r@.map_values(|k: usize| k as int) == with_symbol(ipos@),
{
    let mut r: Vec<usize> = Vec::new();
    let mut i: usize = 0;
    while i < ipos.len()
        invariant
            i <= ipos.len(),
            r@.map_values(|k: usize| k as int) == with_symbol(ipos@.take(i as int)),
        decreases ipos.len() - i,
    {
        assert(ipos@.take(i + 1).drop_last() =~= ipos@.take(i as int));
        assert(ipos@.take(i + 1).last() == ipos@[i as int]);
        if ipos[i].symbol.is_some() {
            let ghost before = r@;
            r.push(i);
            assert(r@.map_values(|k: usize| k as int) =~= before.map_values(|k: usize| k as int).push(
                i as int,
            ));
        }
        i = i + 1;
    }
    assert(ipos@.take(ipos.len() as int) =~= ipos@);
    r
}

/// What one sync run produced.
#[derive(Debug)]
pub struct SyncOutcome {
    pub ipos: usize,
    pub subs: usize,
    pub prices: usize,
}

impl Default for SyncOutcome {
    fn default() -> (r: SyncOutcome)
        ensures
            r.ipos == 0 && r.subs == 0 && r.prices == 0,
    {
        SyncOutcome { ipos: 0, subs: 0, prices: 0 }
    }
}

/// How a source's run is recorded: success with the rows written, or a
/// failure with none and the error as its note.
pub struct RunRecord {
    pub status: RunStatus,
    pub records_written: i64,
    pub notes: Option<String>,
}

/// The record of a source's run from what storing its records gave: the
/// number of rows written, or the error's text.
pub fn source_run_record(result: Result<usize, String>) -> (r: RunRecord)
    requires
        result matches Ok(n) ==> n <= i64::MAX,
    ensures
        match result {
            Ok(n) => r.status == RunStatus::Success && r.records_written == n && r.notes is None,
            Err(e) => r.status == RunStatus::Failed && r.records_written == 0 && (r.notes matches Some(
                m,
            ) && m@ == e@),
        },
{
    match result {
        Ok(n) => RunRecord { status: RunStatus::Success, records_written: n as i64, notes: None },
        Err(e) => RunRecord { status: RunStatus::Failed, records_written: 0, notes: Some(e) },
    }
}

/// How long the loop waits for a manual request before consulting the
/// clock: a minute normally, the backoff after a failure.
pub fn idle_wait(backoff: Duration) -> (r: Duration)
    ensures
        duration_nanos(r) == if duration_nanos(backoff) == 0 {
            60 * second()
        } else {
            duration_nanos(backoff)
        },
{
    if nanos(backoff) == 0 {
        from_secs(60)
    } else {
        backoff
    }
}

/// The backoff after a run of the loop: back to none after a manual
/// request or a success, one step longer after a failed scheduled run.
pub open spec fn backoff_after_run(n: nat, requested: bool, ok: bool) -> nat {
    if requested || ok {
        0
    } else {
        backoff_after(n)
    }
}

/// The loop's backoff once a run has finished.
pub fn backoff_after_outcome(backoff: Duration, requested: bool, ok: bool) -> (r: Duration)
    requires
        duration_nanos(backoff) * 2 <= crate::timing::duration_limit(),
    ensures
        duration_nanos(r) == backoff_after_run(duration_nanos(backoff), requested, ok),
{
    if requested || ok {
        from_secs(0)
    } else {
        next_backoff(backoff)
    }
}

/// The settings key that keeps when `task` last succeeded.
pub open spec fn run_time_key_text(task: SyncTask) -> Seq<char> {
    match task {
        SyncTask::Calendar => "last_calendar_at"@,
        SyncTask::Subscription => "last_sub_at"@,
        SyncTask::Eod => "last_eod_at"@,
    }
}

/// The settings key that keeps when `task` last succeeded.
pub fn run_time_key(task: SyncTask) -> (r: &'static str)
    ensures
        r@ == run_time_key_text(task),
{
    match task {
        SyncTask::Calendar => "last_calendar_at",
        SyncTask::Subscription => "last_sub_at",
        SyncTask::Eod => "last_eod_at",
    }
}

/// A manual request, or a success, always leaves the loop without backoff;
/// a failed scheduled run always leaves it with one of at most an hour.
pub proof fn lemma_backoff_resets(n: nat, requested: bool, ok: bool)
    ensures
        requested || ok ==> backoff_after_run(n, requested, ok) == 0,
        !requested && !ok ==> 0 < backoff_after_run(n, requested, ok) <= 3600 * second(),
{
    lemma_backoff_bounded(n);
}

/// Summary of a sync run over one source.
pub struct SyncResult {
    pub source: String,
    /// IPOs the scraper returned.
    pub total: usize,
    /// IPOs whose stored record changed.
    pub updated: usize,
    /// IPOs whose scraped data matched what was stored.
    pub skipped: usize,
}

/// The summary of a run over `source` that fetched `total` IPOs and wrote
/// `updated` of them.
pub fn sync_result(source: &str, total: usize, updated: usize) -> (r: SyncResult)
    requires
        updated <= total,
    ensures
        r.source@ == source@,
        r.total == total,
        r.updated == updated,
        r.skipped == total - updated,
{
    SyncResult { source: source.to_owned(), total, updated, skipped: total - updated }
}

impl SyncResult {
    /// "source: N IPOs, U updated, S skipped".
    pub fn summary(&self) -> (r: String)
        ensures
            r@ == self.source@ + ": "@ + crate::format::int_text(self.total as int) + " IPOs, "@
                + crate::format::int_text(self.updated as int) + " updated, "@ + crate::format::int_text(
                self.skipped as int,
            ) + " skipped"@,
    {
        let mut v = chars_of(self.source.as_str());
        crate::format::append(&mut v, &chars_of(": "));
        crate::format::append(&mut v, &count_digits(self.total));
        crate::format::append(&mut v, &chars_of(" IPOs, "));
        crate::format::append(&mut v, &count_digits(self.updated));
        crate::format::append(&mut v, &chars_of(" updated, "));
        crate::format::append(&mut v, &count_digits(self.skipped));
        crate::format::append(&mut v, &chars_of(" skipped"));
        string_from(&v)
    }
}

fn count_digits(n: usize) -> (r: Vec<char>)
    ensures
        r@ == crate::format::int_text(n as int),
{
    let mut digits = crate::format::digits_of(n as u128);
    if n == 0 {
        digits.push('0');
        assert(digits@ =~= seq!['0']);
    }
    digits
}

// ---------------------------------------------------------------------------
// Change detection
// ---------------------------------------------------------------------------

/// Two optional amounts are equal in value.
pub open spec fn amounts_equal(a: Option<Decimal>, b: Option<Decimal>) -> bool {
    match (a, b) {
        (Some(x), Some(y)) => value_eq(x, y),
        (None, None) => true,
        _ => false,
    }
}

fn amounts_equal_of(a: Option<Decimal>, b: Option<Decimal>) -> (r: bool)
    requires
        a matches Some(x) ==> x.wf(),
        b matches Some(x) ==> x.wf(),
    ensures
        r == amounts_equal(a, b),
{
    match (a, b) {
        (Some(x), Some(y)) => compare(x, y) == 0,
        (None, None) => true,
        _ => false,
    }
}

fn texts_equal(a: &Option<String>, b: &Option<String>) -> (r: bool)
    ensures
        r == (crate::chittorgarh::opt_text(*a) == crate::chittorgarh::opt_text(*b)),
{
    match (a, b) {
        (Some(x), Some(y)) => *x == *y,
        (None, None) => true,
        _ => false,
    }
}

/// Whether a scraped record carries the same data as the stored one: the
/// names, venues, symbol, sector, offer type, prices and sizes (by value),
/// share counts, dates, status, document links and source.
pub open spec fn same_ipo_data(a: Ipo, b: Ipo) -> bool {
    &&& a.company_name@ == b.company_name@
    &&& crate::chittorgarh::opt_text(a.exchange) == crate::chittorgarh::opt_text(b.exchange)
    &&& crate::chittorgarh::opt_text(a.symbol) == crate::chittorgarh::opt_text(b.symbol)
    &&& crate::chittorgarh::opt_text(a.sector) == crate::chittorgarh::opt_text(b.sector)
    &&& crate::chittorgarh::opt_text(a.offer_type) == crate::chittorgarh::opt_text(b.offer_type)
    &&& amounts_equal(a.price_band_low, b.price_band_low)
    &&& amounts_equal(a.price_band_high, b.price_band_high)
    &&& amounts_equal(a.final_price, b.final_price)
    &&& a.lot_size == b.lot_size
    &&& a.shares_offered == b.shares_offered
    &&& a.fresh_issue_shares == b.fresh_issue_shares
    &&& a.ofs_shares == b.ofs_shares
    &&& amounts_equal(a.issue_size_cr, b.issue_size_cr)
    &&& a.open_date == b.open_date
    &&& a.close_date == b.close_date
    &&& a.allotment_date == b.allotment_date
    &&& a.listing_date == b.listing_date
    &&& a.status == b.status
    &&& crate::chittorgarh::opt_text(a.drhp_url) == crate::chittorgarh::opt_text(b.drhp_url)
    &&& crate::chittorgarh::opt_text(a.rhp_url) == crate::chittorgarh::opt_text(b.rhp_url)
    &&& a.source@ == b.source@
}

/// Whether the stored record `a` and the scraped record `b` carry the same
/// data (so the write can be skipped).
pub fn ipo_fields_equal(a: &Ipo, b: &Ipo) -> (r: bool)
    requires
        a.wf(),
        b.wf(),
    ensures
        r == same_ipo_data(*a, *b),
{
    a.company_name == b.company_name && texts_equal(&a.exchange, &b.exchange) && texts_equal(
        &a.symbol,
        &b.symbol,
    ) && texts_equal(&a.sector, &b.sector) && texts_equal(&a.offer_type, &b.offer_type)
        && amounts_equal_of(a.price_band_low, b.price_band_low) && amounts_equal_of(
        a.price_band_high,
        b.price_band_high,
    ) && amounts_equal_of(a.final_price, b.final_price) && a.lot_size == b.lot_size
        && a.shares_offered == b.shares_offered && a.fresh_issue_shares == b.fresh_issue_shares
        && a.ofs_shares == b.ofs_shares && amounts_equal_of(a.issue_size_cr, b.issue_size_cr)
        && opt_date_eq(a.open_date, b.open_date) && opt_date_eq(a.close_date, b.close_date)
        && opt_date_eq(a.allotment_date, b.allotment_date) && opt_date_eq(
        a.listing_date,
        b.listing_date,
    ) && a.status == b.status && texts_equal(&a.drhp_url, &b.drhp_url) && texts_equal(
        &a.rhp_url,
        &b.rhp_url,
    ) && a.source == b.source
}

/// Whether a scraped record must be written: there is no stored one, or it
/// carries other data.
pub fn needs_write(existing: Option<&Ipo>, scraped: &Ipo) -> (r: bool)
    requires
        existing matches Some(e) ==> e.wf(),
        scraped.wf(),
    ensures
        r == match existing {
            Some(e) => !same_ipo_data(*e, *scraped),
            None => true,
        },
{
    match existing {
        Some(e) => !ipo_fields_equal(e, scraped),
        None => true,
    }
}

/// Whether the scraped record `scraped`, matched to the stored record
/// `stored` (if any), must be written: nothing is stored, either is not
/// well formed, or they carry other data.
pub open spec fn must_write(stored: Option<Ipo>, scraped: Ipo) -> bool {
    match stored {
        Some(e) => !(e.wf() && scraped.wf()) || !same_ipo_data(e, scraped),
        None => true,
    }
}

/// A scraped record that differs from the stored one it matches in a
/// date, the status, a share count, the lot, the company name or the
/// source must be written (a newly announced listing date reaches the
/// store); a record matched against itself is never written again.
pub proof fn lemma_changed_fields_are_written(stored: Ipo, scraped: Ipo)
    requires
        stored.wf(),
        scraped.wf(),
    ensures
        stored.listing_date != scraped.listing_date ==> must_write(Some(stored), scraped),
        stored.open_date != scraped.open_date ==> must_write(Some(stored), scraped),
        stored.close_date != scraped.close_date ==> must_write(Some(stored), scraped),
        stored.allotment_date != scraped.allotment_date ==> must_write(Some(stored), scraped),
        stored.status != scraped.status ==> must_write(Some(stored), scraped),
        stored.lot_size != scraped.lot_size ==> must_write(Some(stored), scraped),
        stored.shares_offered != scraped.shares_offered ==> must_write(Some(stored), scraped),
        stored.fresh_issue_shares != scraped.fresh_issue_shares ==> must_write(Some(stored), scraped),
        stored.ofs_shares != scraped.ofs_shares ==> must_write(Some(stored), scraped),
        stored.company_name@ != scraped.company_name@ ==> must_write(Some(stored), scraped),
        stored.source@ != scraped.source@ ==> must_write(Some(stored), scraped),
        text_differs(stored.symbol, scraped.symbol) ==> must_write(Some(stored), scraped),
        text_differs(stored.exchange, scraped.exchange) ==> must_write(Some(stored), scraped),
        text_differs(stored.sector, scraped.sector) ==> must_write(Some(stored), scraped),
        text_differs(stored.offer_type, scraped.offer_type) ==> must_write(Some(stored), scraped),
        text_differs(stored.drhp_url, scraped.drhp_url) ==> must_write(Some(stored), scraped),
        text_differs(stored.rhp_url, scraped.rhp_url) ==> must_write(Some(stored), scraped),
        amount_differs(stored.price_band_low, scraped.price_band_low) ==> must_write(
            Some(stored),
            scraped,
        ),
        amount_differs(stored.price_band_high, scraped.price_band_high) ==> must_write(
            Some(stored),
            scraped,
        ),
        amount_differs(stored.final_price, scraped.final_price) ==> must_write(Some(stored), scraped),
        amount_differs(stored.issue_size_cr, scraped.issue_size_cr) ==> must_write(
            Some(stored),
            scraped,
        ),
        !must_write(Some(stored), stored),
{
}

/// Two optional texts differ: one is missing, or they hold other
/// characters.
pub open spec fn text_differs(a: Option<String>, b: Option<String>) -> bool {
    (a is Some) != (b is Some) || (a matches Some(x) && b matches Some(y) && x@ != y@)
}

/// Two optional amounts differ: one is missing, or one is the smaller
/// number.
pub open spec fn amount_differs(a: Option<Decimal>, b: Option<Decimal>) -> bool {
    (a is Some) != (b is Some) || (a matches Some(x) && b matches Some(y) && (
    crate::decimal::value_lt(x, y) || crate::decimal::value_lt(y, x)))
}

/// How many of the first `n` scraped records were updated: the record
/// itself must be written, or new subscription figures were stored for it.
pub open spec fn updated_count(
    stored: Seq<Option<Ipo>>,
    scraped: Seq<Ipo>,
    subs_changed: Seq<bool>,
    n: int,
) -> nat
    decreases n,
{
    if n <= 0 {
        0
    } else {
        updated_count(stored, scraped, subs_changed, n - 1) + (if must_write(
            stored[n - 1],
            scraped[n - 1],
        ) || subs_changed[n - 1] {
            1nat
        } else {
            0nat
        })
    }
}

/// The counts of a source's run: how many scraped records were updated
/// (the record carries news against the stored record it matches, by
/// symbol else by normalized name, or its subscription figures changed),
/// and how many were left as they were. Position `k` of each argument
/// speaks of the same record.
pub fn sync_counts(stored: &Vec<Option<Ipo>>, scraped: &Vec<Ipo>, subs_changed: &Vec<bool>) -> (r: (
    usize,
    usize,
))
    requires
        stored.len() == scraped.len(),
        subs_changed.len() == scraped.len(),
    ensures
        r.0 == updated_count(stored@, scraped@, subs_changed@, scraped.len() as int),
        r.1 == scraped.len() - r.0,
{
    let mut n: usize = 0;
    let mut k: usize = 0;
    while k < scraped.len()
        invariant
            k <= scraped.len(),
            stored.len() == scraped.len(),
            subs_changed.len() == scraped.len(),
            n == updated_count(stored@, scraped@, subs_changed@, k as int),
            n <= k,
        decreases scraped.len() - k,
    {
        let write = match &stored[k] {
            Some(e) => if e.is_wf() && scraped[k].is_wf() {
                needs_write(Some(e), &scraped[k])
            } else {
                true
            },
            None => true,
        };
        if write || subs_changed[k] {
            n = n + 1;
        }
        k = k + 1;
    }
    (n, scraped.len() - n)
}

/// The times subscribed of the last snapshot of category `c` (what a map
/// keyed by category, filled in order, holds); `None` when there is none.
pub open spec fn last_of_category(s: Seq<SubscriptionSnapshot>, c: SubCategory) -> Option<Option<Decimal>>
    decreases s.len(),
{
    if s.len() == 0 {
        None
    } else if s.last().category == c {
        Some(s.last().times_subscribed)
    } else {
        last_of_category(s.drop_last(), c)
    }
}

/// Whether the category `c` occurs among the snapshots.
pub open spec fn has_category(s: Seq<SubscriptionSnapshot>, c: SubCategory) -> bool {
    exists|i: int| 0 <= i < s.len() && (#[trigger] s[i]).category == c
}

/// Whether a freshly scraped set of snapshots differs from the latest
/// stored one: never for an empty scrape; always when nothing is stored;
/// otherwise when a scraped category is missing from the stored set or
/// carries another times figure, or a stored category is missing from the
/// scrape.
pub open spec fn snapshots_differ(latest: Seq<SubscriptionSnapshot>, new: Seq<SubscriptionSnapshot>) -> bool {
    if new.len() == 0 {
        false
    } else if latest.len() == 0 {
        true
    } else {
        (exists|i: int|
            0 <= i < new.len() && match last_of_category(latest, (#[trigger] new[i]).category) {
                Some(t) => !amounts_equal(t, new[i].times_subscribed),
                None => true,
            }) || (exists|j: int| 0 <= j < latest.len() && !has_category(new, (#[trigger] latest[j]).category))
    }
}

/// The integer code a category is keyed by.
pub open spec fn category_code(c: SubCategory) -> u8 {
    match c {
        SubCategory::Qib => 0,
        SubCategory::Nii => 1,
        SubCategory::Retail => 2,
        SubCategory::Total => 3,
    }
}

fn category_code_of(c: SubCategory) -> (r: u8)
    ensures
        r == category_code(c),
{
    match c {
        SubCategory::Qib => 0,
        SubCategory::Nii => 1,
        SubCategory::Retail => 2,
        SubCategory::Total => 3,
    }
}

/// The map from category code to times subscribed that inserting the
/// snapshots in order builds (a later snapshot of a category replaces an
/// earlier one).
pub open spec fn latest_map(s: Seq<SubscriptionSnapshot>) -> Map<u8, Option<Decimal>>
    decreases s.len(),
{
    if s.len() == 0 {
        Map::empty()
    } else {
        latest_map(s.drop_last()).insert(category_code(s.last().category), s.last().times_subscribed)
    }
}

proof fn lemma_latest_map(s: Seq<SubscriptionSnapshot>, c: SubCategory)
    requires
        forall|i: int| 0 <= i < s.len() ==> (#[trigger] s[i]).wf(),
    ensures
        latest_map(s).contains_key(category_code(c)) == (last_of_category(s, c) is Some),
        last_of_category(s, c) matches Some(t) ==> latest_map(s)[category_code(c)] == t && (
        t matches Some(x) ==> x.wf()),
    decreases s.len(),
{
    if s.len() > 0 {
        assert forall|i: int| 0 <= i < s.drop_last().len() implies (#[trigger] s.drop_last()[i]).wf() by {
            assert(s.drop_last()[i] == s[i]);
        }
        lemma_latest_map(s.drop_last(), c);
        assert(s[s.len() - 1].wf());
    }
}

/// The latest stored times subscribed, keyed by category code.
fn latest_by_category(latest: &Vec<SubscriptionSnapshot>) -> (m: HashMap<u8, Option<Decimal>>)
    ensures
        m@ == latest_map(latest@),
{
    broadcast use vstd::std_specs::hash::group_hash_axioms;

    let mut m: HashMap<u8, Option<Decimal>> = HashMap::new();
    let mut i: usize = 0;
    while i < latest.len()
        invariant
            i <= latest.len(),
            m@ == latest_map(latest@.take(i as int)),
        decreases latest.len() - i,
    {
        assert(latest@.take(i + 1).drop_last() =~= latest@.take(i as int));
        assert(latest@.take(i + 1).last() == latest@[i as int]);
        m.insert(category_code_of(latest[i].category), latest[i].times_subscribed);
        i = i + 1;
    }
    assert(latest@.take(latest.len() as int) =~= latest@);
    m
}

fn has_category_in(s: &Vec<SubscriptionSnapshot>, c: SubCategory) -> (r: bool)
    ensures
        r == has_category(s@, c),
{
    let mut i: usize = 0;
    while i < s.len()
        invariant
            i <= s.len(),
            forall|k: int| 0 <= k < i ==> (#[trigger] s@[k]).category != c,
        decreases s.len() - i,
    {
        if s[i].category == c {
            return true;
        }
        i = i + 1;
    }
    false
}

/// Whether the scraped snapshots `new` differ from the latest stored ones.
pub fn subscriptions_differ(latest: &Vec<SubscriptionSnapshot>, new: &Vec<SubscriptionSnapshot>) -> (r: bool)
    requires
        forall|i: int| 0 <= i < latest.len() ==> (#[trigger] latest@[i]).wf(),
        forall|i: int| 0 <= i < new.len() ==> (#[trigger] new@[i]).wf(),
    ensures
        r == snapshots_differ(latest@, new@),
{
    if new.len() == 0 {
        return false;
    }
    if latest.len() == 0 {
        return true;
    }
    broadcast use vstd::std_specs::hash::group_hash_axioms;

    let by_category = latest_by_category(latest);
    let mut i: usize = 0;
    while i < new.len()
        invariant
            i <= new.len(),
            new.len() > 0,
            latest.len() > 0,
            by_category@ == latest_map(latest@),
            forall|k: int| 0 <= k < latest.len() ==> (#[trigger] latest@[k]).wf(),
            forall|k: int| 0 <= k < new.len() ==> (#[trigger] new@[k]).wf(),
            forall|k: int|
                0 <= k < i ==> match last_of_category(latest@, (#[trigger] new@[k]).category) {
                    Some(t) => amounts_equal(t, new@[k].times_subscribed),
                    None => false,
                },
        decreases new.len() - i,
    {
        assert(new@[i as int].wf());
        proof {
            lemma_latest_map(latest@, new@[i as int].category);
        }
        let code = category_code_of(new[i].category);
        match by_category.get(&code) {
            Some(t) => {
                let t = *t;
                if !amounts_equal_of(t, new[i].times_subscribed) {
                    assert(match last_of_category(latest@, new@[i as int].category) {
                        Some(t) => !amounts_equal(t, new@[i as int].times_subscribed),
                        None => true,
                    });
                    return true;
                }
            },
            None => {
                assert(match last_of_category(latest@, new@[i as int].category) {
                    Some(t) => !amounts_equal(t, new@[i as int].times_subscribed),
                    None => true,
                });
                return true;
            },
        }
        i = i + 1;
    }
    let mut j: usize = 0;
    while j < latest.len()
        invariant
            j <= latest.len(),
            new.len() > 0,
            latest.len() > 0,
            forall|k: int| 0 <= k < j ==> has_category(new@, (#[trigger] latest@[k]).category),
        decreases latest.len() - j,
    {
        if !has_category_in(new, latest[j].category) {
            assert(0 <= j < latest@.len() && !has_category(new@, latest@[j as int].category));
            return true;
        }
        j = j + 1;
    }
    false
}

/// Every stored record carries the same data as itself, so re-scraping an
/// unchanged IPO never rewrites it.
pub proof fn lemma_same_ipo_data_reflexive(a: Ipo)
    ensures
        same_ipo_data(a, a),
{
}

/// Whether no two snapshots share a category.
pub open spec fn distinct_categories(s: Seq<SubscriptionSnapshot>) -> bool {
    forall|i: int, j: int| 0 <= i < j < s.len() ==> (#[trigger] s[i]).category != (#[trigger] s[j]).category
}

proof fn lemma_last_of_own_category(s: Seq<SubscriptionSnapshot>, i: int)
    requires
        distinct_categories(s),
        0 <= i < s.len(),
    ensures
        last_of_category(s, s[i].category) == Some(s[i].times_subscribed),
    decreases s.len(),
{
    if i < s.len() - 1 {
        assert(s.last().category != s[i].category) by {
            assert(s[i].category != s[s.len() - 1].category);
        }
        assert(distinct_categories(s.drop_last()));
        assert(s.drop_last()[i] == s[i]);
        lemma_last_of_own_category(s.drop_last(), i);
    }
}

/// Scraping exactly the snapshots that are stored (one per category) is no
/// change, and an empty scrape never is.
pub proof fn lemma_unchanged_snapshots_do_not_differ(latest: Seq<SubscriptionSnapshot>)
    requires
        distinct_categories(latest),
    ensures
        !snapshots_differ(latest, latest),
        !snapshots_differ(latest, Seq::empty()),
{
    if latest.len() > 0 {
        assert forall|i: int| 0 <= i < latest.len() implies match last_of_category(
            latest,
            (#[trigger] latest[i]).category,
        ) {
            Some(t) => amounts_equal(t, latest[i].times_subscribed),
            None => false,
        } by {
            lemma_last_of_own_category(latest, i);
        }
        assert forall|j: int| 0 <= j < latest.len() implies has_category(latest, (#[trigger] latest[j]).category) by {
        }
    }
}

} // verus!

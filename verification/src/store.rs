//! The database's decisions: the schema's version check, the query that
//! lists IPOs, which stored row an incoming record updates, and how the
//! per-status counts read back.

use vstd::prelude::*;

use crate::date::{datetime_max, later_of, DateTime};
use crate::error::Error;
use crate::format::{append, int_text, int_text_of};
use crate::text::{chars_of, lower_seq, lower_vec, string_from, trim, trim_str};
use crate::types::{status_name, Ipo, IpoStatus, PricePoint, SubscriptionSnapshot};

verus! {

// ---------------------------------------------------------------------------
// The database handle
// ---------------------------------------------------------------------------

/// Handle to a mosaic database file; connections are opened per use site.
#[derive(Debug, Clone)]
pub struct Db {
    path: String,
}

impl Db {
    pub closed spec fn path_spec(&self) -> Seq<char> {
        self.path@
    }

    /// A handle to the (already migrated) database at `path`.
    pub fn at(path: &str) -> (db: Db)
        ensures
            db.path_spec() == path@,
    {
        Db { path: path.to_owned() }
    }

    /// The database file path.
    pub fn path(&self) -> (r: &str)
        ensures
            r@ == self.path_spec(),
    {
        self.path.as_str()
    }
}

// ---------------------------------------------------------------------------
// Migrations
// ---------------------------------------------------------------------------

/// Which migrations to apply to a database at schema `version` when
/// `available` are known: an error for a version this binary does not know
/// (newer, or negative), the range `version..available` when behind, and
/// nothing when current.
pub open spec fn migration_range(version: i64, available: u64) -> Option<(u64, u64)> {
    if 0 <= version < available {
        Some((version as u64, available))
    } else {
        None
    }
}

pub open spec fn migration_error_text(version: i64, available: u64) -> Seq<char> {
    "database schema version "@ + int_text(version as int) + " is newer than this binary supports ("@
        + int_text(available as int) + ")"@
}

/// The migrations to apply, or the error for an unknown schema version.
pub fn migration_plan(version: i64, available: u64) -> (r: Result<Option<(u64, u64)>, Error>)
    requires
        available <= i64::MAX,
    ensures
        (version < 0 || version > available) <==> r is Err,
        r matches Err(Error::Migration(m)) ==> m@ == migration_error_text(version, available),
        r matches Err(e) ==> e is Migration,
        r matches Ok(p) ==> p == migration_range(version, available),
{
    if version < 0 || version as u64 > available {
        let mut v = chars_of("database schema version ");
        append(&mut v, &int_text_of(version));
        append(&mut v, &chars_of(" is newer than this binary supports ("));
        append(&mut v, &int_text_of(available as i64));
        append(&mut v, &chars_of(")"));
        return Err(Error::Migration(string_from(&v)));
    }
    if (version as u64) < available {
        Ok(Some((version as u64, available)))
    } else {
        Ok(None)
    }
}

/// The error for migration number `number` (1-based) failing with
/// `message`.
pub fn migration_failed(number: u64, message: &str) -> (e: Error)
    requires
        number <= i64::MAX,
    ensures
        e matches Error::Migration(m) && m@ == "migration "@ + int_text(number as int) + " failed: "@
            + message@,
{
    let mut v = chars_of("migration ");
    append(&mut v, &int_text_of(number as i64));
    append(&mut v, &chars_of(" failed: "));
    append(&mut v, &chars_of(message));
    Error::Migration(string_from(&v))
}

/// The schema guard: a database at the current version must have the
/// `ipos.normalized_name` column (`columns` counts it).
pub fn schema_guard(columns: i64) -> (r: Result<(), Error>)
    ensures
        columns == 0 <==> r is Err,
        r matches Err(e) ==> e matches Error::Migration(m) && m@ == "database schema does not match this binary (missing ipos.normalized_name). If this is a pre-rewrite mosaic database, move the file aside and re-run."@,
{
    if columns == 0 {
        return Err(
            Error::Migration(
                "database schema does not match this binary (missing ipos.normalized_name). If this is a pre-rewrite mosaic database, move the file aside and re-run.".to_owned(),
            ),
        );
    }
    Ok(())
}

// ---------------------------------------------------------------------------
// Listing IPOs
// ---------------------------------------------------------------------------

/// The columns an IPO row is read from, in order.
pub open spec fn ipo_columns() -> Seq<char> {
    "id, company_name, normalized_name, symbol, exchange, sector, status, price_band_low, price_band_high, final_price, face_value, lot_size, lot_multiples, issue_size_cr, shares_offered, fresh_issue_shares, ofs_shares, issue_type, offer_type, open_date, close_date, allotment_date, listing_date, listing_date_tentative, drhp_url, rhp_url, detail_url, source, ingested_at, updated_at"@
}

/// The search term a search box text gives: trimmed and lower-cased; none
/// when nothing is left.
pub open spec fn search_term(search: Option<Seq<char>>) -> Option<Seq<char>> {
    match search {
        Some(s) => if trim(s).len() > 0 {
            Some(lower_seq(trim(s)))
        } else {
            None
        },
        None => None,
    }
}

/// The SQL that lists IPOs, filtered by status and by a name search.
pub open spec fn list_sql(status: Option<IpoStatus>, search: Option<Seq<char>>) -> Seq<char> {
    let head = "SELECT "@ + ipo_columns() + " FROM ipos"@;
    let status_clause = "status = ?"@;
    let search_clause = "(company_name LIKE ? OR normalized_name LIKE ?)"@;
    let filter = match (status, search_term(search)) {
        (Some(_), Some(_)) => " WHERE "@ + status_clause + " AND "@ + search_clause,
        (Some(_), None) => " WHERE "@ + status_clause,
        (None, Some(_)) => " WHERE "@ + search_clause,
        (None, None) => Seq::empty(),
    };
    head + filter + " ORDER BY open_date IS NULL, open_date ASC, id ASC"@
}

/// The parameters that go with `list_sql`: the status name, then the
/// pattern `%term%` twice.
pub open spec fn list_params(status: Option<IpoStatus>, search: Option<Seq<char>>) -> Seq<Seq<char>> {
    let first = match status {
        Some(s) => seq![status_name(s)],
        None => Seq::empty(),
    };
    match search_term(search) {
        Some(t) => {
            let like = "%"@ + t + "%"@;
            first + seq![like, like]
        },
        None => first,
    }
}

fn push_str(v: &mut Vec<char>, s: &str)
    ensures
        final(v)@ == old(v)@ + s@,
{
    let c = chars_of(s);
    append(v, &c);
}

/// The SQL and parameters that list IPOs with the given status filter and
/// name search (matched against both the name and its key).
pub fn list_query(status: Option<IpoStatus>, search: Option<&str>) -> (r: (String, Vec<String>))
    ensures
        r.0@ == list_sql(
            status,
            match search {
                Some(s) => Some(s@),
                None => None,
            },
        ),
        r.1@.map_values(|p: String| p@) == list_params(
            status,
            match search {
                Some(s) => Some(s@),
                None => None,
            },
        ),
{
    let ghost sv = match search {
        Some(s) => Some(s@),
        None => None::<Seq<char>>,
    };
    let term: Option<Vec<char>> = match search {
        Some(s) => {
            let t = trim_str(s);
            if t.len() > 0 {
                Some(lower_vec(&t))
            } else {
                None
            }
        },
        None => None,
    };
    assert(match term {
        Some(t) => search_term(sv) == Some(t@),
        None => search_term(sv) is None,
    });
    let mut sql: Vec<char> = Vec::new();
    push_str(&mut sql, "SELECT ");
    push_str(
        &mut sql,
        "id, company_name, normalized_name, symbol, exchange, sector, status, price_band_low, price_band_high, final_price, face_value, lot_size, lot_multiples, issue_size_cr, shares_offered, fresh_issue_shares, ofs_shares, issue_type, offer_type, open_date, close_date, allotment_date, listing_date, listing_date_tentative, drhp_url, rhp_url, detail_url, source, ingested_at, updated_at",
    );
    push_str(&mut sql, " FROM ipos");
    let mut params: Vec<String> = Vec::new();
    match (status, &term) {
        (Some(_), Some(_)) => {
            push_str(&mut sql, " WHERE ");
            push_str(&mut sql, "status = ?");
            push_str(&mut sql, " AND ");
            push_str(&mut sql, "(company_name LIKE ? OR normalized_name LIKE ?)");
        },
        (Some(_), None) => {
            push_str(&mut sql, " WHERE ");
            push_str(&mut sql, "status = ?");
        },
        (None, Some(_)) => {
            push_str(&mut sql, " WHERE ");
            push_str(&mut sql, "(company_name LIKE ? OR normalized_name LIKE ?)");
        },
        (None, None) => {},
    }
    push_str(&mut sql, " ORDER BY open_date IS NULL, open_date ASC, id ASC");
    match status {
        Some(s) => {
            params.push(s.as_str().to_owned());
        },
        None => {},
    }
    let ghost first = params@.map_values(|p: String| p@);
    match &term {
        Some(t) => {
            let mut like: Vec<char> = Vec::new();
            like.push('%');
            append(&mut like, t);
            like.push('%');
            assert(like@ =~= "%"@ + t@ + "%"@) by {
                reveal_strlit("%");
            }
            params.push(string_from(&like));
            params.push(string_from(&like));
            assert(params@.map_values(|p: String| p@) =~= first + seq![like@, like@]);
        },
        None => {},
    }
    proof {
        let head = "SELECT "@ + ipo_columns() + " FROM ipos"@;
        assert(first =~= match status {
            Some(s) => seq![status_name(s)],
            None => Seq::<Seq<char>>::empty(),
        });
        match (status, search_term(sv)) {
            (Some(_), Some(_)) => {
                assert(sql@ =~= list_sql(status, sv));
            },
            (Some(_), None) => {
                assert(sql@ =~= list_sql(status, sv));
            },
            (None, Some(_)) => {
                assert(sql@ =~= list_sql(status, sv));
            },
            (None, None) => {
                assert(sql@ =~= list_sql(status, sv));
            },
        }
    }
    (string_from(&sql), params)
}

// ---------------------------------------------------------------------------
// Upserts
// ---------------------------------------------------------------------------

/// How an incoming IPO record is written: over the stored row `id`, or as
/// a new row; either way stamped `updated_at`.
#[derive(Debug, Clone, Copy, PartialEq, Eq, Structural)]
pub enum IpoWrite {
    Update { id: i64, updated_at: DateTime },
    Insert { updated_at: DateTime },
}

/// The stored row an incoming record matches: the row with its symbol
/// when it has one and such a row exists, else the row with its
/// normalized name.
pub open spec fn matched_row(ipo: Ipo, by_symbol: Option<i64>, by_name: Option<i64>) -> Option<i64> {
    if ipo.symbol is Some && by_symbol is Some {
        by_symbol
    } else {
        by_name
    }
}

/// Whether the row with the record's normalized name must be looked up:
/// when no row matched its symbol (or it has none).
pub fn needs_name_lookup(ipo: &Ipo, by_symbol: Option<i64>) -> (r: bool)
    ensures
        r == !(ipo.symbol is Some && by_symbol is Some),
{
    !(ipo.symbol.is_some() && by_symbol.is_some())
}

/// How to write `ipo` given the rows its symbol and its normalized name
/// matched (`by_symbol` is ignored for a record without symbol) at `now`:
/// update the matched row or insert, stamped with the later of the record's
/// own `updated_at` and `now`.
pub fn plan_ipo_write(ipo: &Ipo, by_symbol: Option<i64>, by_name: Option<i64>, now: DateTime) -> (w: IpoWrite)
    ensures
        match matched_row(*ipo, by_symbol, by_name) {
            Some(id) => w == IpoWrite::Update { id, updated_at: datetime_max(ipo.updated_at, now) },
            None => w == IpoWrite::Insert { updated_at: datetime_max(ipo.updated_at, now) },
        },
{
    let updated_at = later_of(ipo.updated_at, now);
    let target = if ipo.symbol.is_some() && by_symbol.is_some() {
        by_symbol
    } else {
        by_name
    };
    match target {
        Some(id) => IpoWrite::Update { id, updated_at },
        None => IpoWrite::Insert { updated_at },
    }
}

/// Re-writing a stored record never adds a row: a record whose symbol, or
/// else whose normalized name, is already stored updates that row.
pub proof fn lemma_stored_record_updates(ipo: Ipo, by_symbol: Option<i64>, by_name: Option<i64>)
    requires
        (ipo.symbol is Some && by_symbol is Some) || by_name is Some,
    ensures
        matched_row(ipo, by_symbol, by_name) is Some,
{
}

/// The IPO a snapshot belongs to; an error when it has none.
pub fn snapshot_ipo_id(s: &SubscriptionSnapshot) -> (r: Result<i64, Error>)
    ensures
        match s.ipo_id {
            Some(id) => r == Ok::<i64, Error>(id),
            None => r matches Err(Error::Other(m)) && m@ == "snapshot missing ipo_id"@,
        },
{
    match s.ipo_id {
        Some(id) => Ok(id),
        None => Err(Error::Other("snapshot missing ipo_id".to_owned())),
    }
}

/// The IPO a price row belongs to; an error when it has none.
pub fn price_ipo_id(p: &PricePoint) -> (r: Result<i64, Error>)
    ensures
        match p.ipo_id {
            Some(id) => r == Ok::<i64, Error>(id),
            None => r matches Err(Error::Other(m)) && m@ == "price missing ipo_id"@,
        },
{
    match p.ipo_id {
        Some(id) => Ok(id),
        None => Err(Error::Other("price missing ipo_id".to_owned())),
    }
}

// ---------------------------------------------------------------------------
// Counts
// ---------------------------------------------------------------------------

/// Per-status counts for the list's stat strip.
#[derive(Debug, Clone, Copy, PartialEq, Eq, Structural)]
pub struct StatusCounts {
    pub upcoming: i64,
    pub open: i64,
    pub closed: i64,
    pub listed: i64,
}

impl Default for StatusCounts {
    fn default() -> (r: StatusCounts)
        ensures
            r == (StatusCounts { upcoming: 0, open: 0, closed: 0, listed: 0 }),
    {
        StatusCounts { upcoming: 0, open: 0, closed: 0, listed: 0 }
    }
}

/// The count grouped under `name`: the last row naming it, else zero.
pub open spec fn count_of(rows: Seq<(Seq<char>, i64)>, name: Seq<char>) -> i64
    decreases rows.len(),
{
    if rows.len() == 0 {
        0
    } else if rows.last().0 == name {
        rows.last().1
    } else {
        count_of(rows.drop_last(), name)
    }
}

impl StatusCounts {
    /// The counts from `(status, count)` rows; other statuses are ignored.
    pub fn from_rows(rows: &Vec<(String, i64)>) -> (c: StatusCounts)
        ensures
            c.upcoming == count_of(rows@.map_values(|r: (String, i64)| (r.0@, r.1)), "upcoming"@),
            c.open == count_of(rows@.map_values(|r: (String, i64)| (r.0@, r.1)), "open"@),
            c.closed == count_of(rows@.map_values(|r: (String, i64)| (r.0@, r.1)), "closed"@),
            c.listed == count_of(rows@.map_values(|r: (String, i64)| (r.0@, r.1)), "listed"@),
    {
        let ghost g = rows@.map_values(|r: (String, i64)| (r.0@, r.1));
        let upcoming = "upcoming".to_owned();
        let open = "open".to_owned();
        let closed = "closed".to_owned();
        let listed = "listed".to_owned();
        let mut c = StatusCounts { upcoming: 0, open: 0, closed: 0, listed: 0 };
        let mut i: usize = 0;
        while i < rows.len()
            invariant
                i <= rows.len(),
                g == rows@.map_values(|r: (String, i64)| (r.0@, r.1)),
                upcoming@ == "upcoming"@,
                open@ == "open"@,
                closed@ == "closed"@,
                listed@ == "listed"@,
                c.upcoming == count_of(g.take(i as int), "upcoming"@),
                c.open == count_of(g.take(i as int), "open"@),
                c.closed == count_of(g.take(i as int), "closed"@),
                c.listed == count_of(g.take(i as int), "listed"@),
            decreases rows.len() - i,
        {
            assert(g.take(i + 1).drop_last() =~= g.take(i as int));
            assert(g.take(i + 1).last() == (rows@[i as int].0@, rows@[i as int].1));
            proof {
                reveal_strlit("upcoming");
                reveal_strlit("open");
                reveal_strlit("closed");
                reveal_strlit("listed");
                assert("upcoming"@.len() == 8 && "open"@.len() == 4 && "closed"@.len() == 6 && "listed"@.len() == 6);
                assert("closed"@[0] != "listed"@[0]);
            }
            let row = &rows[i];
            if row.0 == upcoming {
                c.upcoming = row.1;
            } else if row.0 == open {
                c.open = row.1;
            } else if row.0 == closed {
                c.closed = row.1;
            } else if row.0 == listed {
                c.listed = row.1;
            }
            i = i + 1;
        }
        assert(g.take(rows.len() as int) =~= g);
        c
    }
}

} // verus!

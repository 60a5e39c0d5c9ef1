# Mosaic

A deterministic IPO tracker for Indian mainboard issues: it pulls the
calendar, issue details, day-wise subscription and end-of-day prices from
NSE, Chittorgarh and IPO Watch into SQLite, and shows each IPO's dossier.

The library under `src/` is verified with Verus: every public function
states what it returns in its `ensures`, and the laws the tracker relies on
(status lifecycle, round trips of stored names, the company-name identity
key, sorting as an ordered permutation, request spacing, backoff bounds,
change detection before writes) are public proof functions; that sorting
is stable is stated by `sort_ipos` itself.

- `src/types.rs`, `date.rs`, `decimal.rs`: the records and their value types.
- `src/parse_util.rs`, `chittorgarh.rs`, `ipowatch.rs`, `nse.rs`, `json.rs`,
  `html.rs`: the scrapers' parsers, from page text or JSON to records.
- `src/sync.rs`, `store.rs`, `rate_limit.rs`, `timing.rs`: the decisions of
  the sync loop and of the database layer.
- `src/format.rs`, `view.rs`, `sorting.rs`: what the list and the dossier
  show.
- `app/`: the command line, HTTP, SQLite and configuration files.
- `tests/`: tests of the library on concrete values.

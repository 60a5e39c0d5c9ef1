//! The HTML pages' tables, as plain text, read with the `scraper` crate.

use vstd::prelude::*;

verus! {

/// One table row: the text of each `td`/`th` cell (untrimmed), and the
/// `href` of each link in the row (none for a link without one).
#[derive(Debug, Clone)]
pub struct HtmlRow {
    pub cells: Vec<String>,
    pub links: Vec<Option<String>>,
}

/// The texts of a sequence of strings.
pub open spec fn texts(v: Seq<String>) -> Seq<Seq<char>> {
    v.map_values(|s: String| s@)
}

/// The texts of a sequence of optional strings.
pub open spec fn opt_texts(v: Seq<Option<String>>) -> Seq<Option<Seq<char>>> {
    v.map_values(|s: Option<String>| match s {
        Some(t) => Some(t@),
        None => None,
    })
}

/// A row as plain text: (cells, link targets).
pub open spec fn row_text(r: HtmlRow) -> (Seq<Seq<char>>, Seq<Option<Seq<char>>>) {
    (texts(r.cells@), opt_texts(r.links@))
}

/// The rows of a sequence of table rows, as plain text.
pub open spec fn rows_text(v: Seq<HtmlRow>) -> Seq<(Seq<Seq<char>>, Seq<Option<Seq<char>>>)> {
    v.map_values(|r: HtmlRow| row_text(r))
}

/// The cells of each row of each table, as plain text.
pub open spec fn tables_text(v: Seq<Vec<Vec<String>>>) -> Seq<Seq<Seq<Seq<char>>>> {
    v.map_values(|t: Vec<Vec<String>>| t@.map_values(|r: Vec<String>| texts(r@)))
}

/// What `scraper` selects as `table tr` in a document, in document order,
/// each row as (cell texts for `td, th`, the `href` of each `a` element).
pub uninterp spec fn document_table_rows(html: Seq<char>) -> Seq<(Seq<Seq<char>>, Seq<Option<Seq<char>>>)>;

/// What `scraper` selects as `table` in a document, in document order, each
/// as the cell texts (`td, th`) of its `tr` rows.
pub uninterp spec fn document_tables(html: Seq<char>) -> Seq<Seq<Seq<Seq<char>>>>;

/// The text of the first `h1` of a document, if it has one.
pub uninterp spec fn document_first_h1(html: Seq<char>) -> Option<Seq<char>>;

/// `scraper::Html::parse_document` and the selector `table tr`: every row
/// inside a table, with its cell texts and the `href` of each of its links.
#[verifier::external_body]
pub(crate) fn table_rows(html: &str) -> (r: Vec<HtmlRow>)
    ensures
        rows_text(r@) == document_table_rows(html@),
{
    let doc = scraper::Html::parse_document(html);
    let rows = scraper::Selector::parse("table tr").unwrap();
    let cells = scraper::Selector::parse("td, th").unwrap();
    let links = scraper::Selector::parse("a").unwrap();
    doc.select(&rows).map(|r| HtmlRow {
        cells: r.select(&cells).map(|c| c.text().collect::<String>()).collect(),
        links: r.select(&links).map(|a| a.attr("href").map(String::from)).collect(),
    }).collect()
}

/// `scraper::Html::parse_document` and the selectors `table`, `tr` and
/// `td, th`: each table's rows, each row's cell texts.
#[verifier::external_body]
pub(crate) fn tables(html: &str) -> (r: Vec<Vec<Vec<String>>>)
    ensures
        tables_text(r@) == document_tables(html@),
{
    let doc = scraper::Html::parse_document(html);
    let table = scraper::Selector::parse("table").unwrap();
    let row = scraper::Selector::parse("tr").unwrap();
    let cells = scraper::Selector::parse("td, th").unwrap();
    doc.select(&table).map(|t| t.select(&row).map(|r| {
        r.select(&cells).map(|c| c.text().collect::<String>()).collect()
    }).collect()).collect()
}

/// `scraper::Html::parse_document` and the selector `h1`: the text of the
/// first heading.
#[verifier::external_body]
pub(crate) fn first_h1(html: &str) -> (r: Option<String>)
    ensures
        r matches Some(s) ==> document_first_h1(html@) == Some(s@),
        r is None ==> document_first_h1(html@) is None,
{
    let doc = scraper::Html::parse_document(html);
    let h1 = scraper::Selector::parse("h1").unwrap();
    doc.select(&h1).next().map(|h| h.text().collect::<String>())
}

} // verus!

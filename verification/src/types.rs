//! Domain vocabulary: IPO lifecycle status, subscription categories, run
//! outcomes, and the cross-source company-name key.

use vstd::prelude::*;

use crate::date::{date_before, date_lt, date_le, now_utc, Date, DateTime};
use crate::decimal::Decimal;
use crate::text::{
    chars_of, slice_vec, string_from, lemma_trim_end_index, lemma_trim_start_index, lower_seq, lower_vec, trim, unicode_white_space,
    trim_end_index, trim_start_index, trim_str, trim_vec, vec_eq_str, collapse_ws, collapse_ws_vec,
    ends_with, ends_with_vec, trim_end, trim_end_vec, has_non_ws, lemma_collapse_ws, lemma_lower_char, lower,
    upper, upper_seq,
};

verus! {

// ---------------------------------------------------------------------------
// Status lifecycle
// ---------------------------------------------------------------------------

/// The live lifecycle of an IPO: `upcoming` → `open` → `closed` → `listed`,
/// with `withdrawn` possible at any point.
#[derive(Debug, Clone, Copy, PartialEq, Eq, Structural)]
pub enum IpoStatus {
    Upcoming,
    Open,
    Closed,
    Listed,
    Withdrawn,
}

/// The stored name of a status.
pub open spec fn status_name(s: IpoStatus) -> Seq<char> {
    match s {
        IpoStatus::Upcoming => "upcoming"@,
        IpoStatus::Open => "open"@,
        IpoStatus::Closed => "closed"@,
        IpoStatus::Listed => "listed"@,
        IpoStatus::Withdrawn => "withdrawn"@,
    }
}

/// The status a stored name denotes, if any.
pub open spec fn status_from_name(n: Seq<char>) -> Option<IpoStatus> {
    if n == "upcoming"@ {
        Some(IpoStatus::Upcoming)
    } else if n == "open"@ {
        Some(IpoStatus::Open)
    } else if n == "closed"@ {
        Some(IpoStatus::Closed)
    } else if n == "listed"@ {
        Some(IpoStatus::Listed)
    } else if n == "withdrawn"@ {
        Some(IpoStatus::Withdrawn)
    } else {
        None
    }
}

impl IpoStatus {
    pub fn as_str(self) -> (r: &'static str)
        ensures
            r@ == status_name(self),
    {
        match self {
            IpoStatus::Upcoming => "upcoming",
            IpoStatus::Open => "open",
            IpoStatus::Closed => "closed",
            IpoStatus::Listed => "listed",
            IpoStatus::Withdrawn => "withdrawn",
        }
    }

    pub fn parse(s: &str) -> (r: Option<Self>)
        ensures
            r == status_from_name(s@),
    {
        let v = chars_of(s);
        if vec_eq_str(&v, "upcoming") {
            Some(IpoStatus::Upcoming)
        } else if vec_eq_str(&v, "open") {
            Some(IpoStatus::Open)
        } else if vec_eq_str(&v, "closed") {
            Some(IpoStatus::Closed)
        } else if vec_eq_str(&v, "listed") {
            Some(IpoStatus::Listed)
        } else if vec_eq_str(&v, "withdrawn") {
            Some(IpoStatus::Withdrawn)
        } else {
            None
        }
    }
}

/// Parsing the stored name of a status gives that status back.
pub proof fn lemma_status_roundtrip(s: IpoStatus)
    ensures
        status_from_name(status_name(s)) == Some(s),
{
    reveal_strlit("upcoming");
    reveal_strlit("open");
    reveal_strlit("closed");
    reveal_strlit("listed");
    reveal_strlit("withdrawn");
    assert("upcoming"@.len() == 8);
    assert("open"@.len() == 4);
    assert("closed"@.len() == 6);
    assert("listed"@.len() == 6);
    assert("withdrawn"@.len() == 9);
    assert("closed"@[0] != "listed"@[0]);
}

// ---------------------------------------------------------------------------
// Subscription categories
// ---------------------------------------------------------------------------

/// The subscription categories NSE publishes: QIB, NII, Retail, and the
/// Total row.
#[derive(Debug, Clone, Copy, PartialEq, Eq, PartialOrd, Ord, Structural)]
pub enum SubCategory {
    Qib,
    Nii,
    Retail,
    Total,
}

/// The stored name of a category.
pub open spec fn category_name(c: SubCategory) -> Seq<char> {
    match c {
        SubCategory::Qib => "qib"@,
        SubCategory::Nii => "nii"@,
        SubCategory::Retail => "retail"@,
        SubCategory::Total => "total"@,
    }
}

/// The category a lower-cased, trimmed source label denotes.
pub open spec fn category_from_key(k: Seq<char>) -> Option<SubCategory> {
    if k == "qib"@ || k == "qib (ex anchor)"@ || k == "qualified institutional buyers"@ {
        Some(SubCategory::Qib)
    } else if k == "nii"@ || k == "nib"@ || k == "non institutional investors"@
        || k == "non-institutional investors"@ {
        Some(SubCategory::Nii)
    } else if k == "retail"@ || k == "rii"@ || k == "retail individual investors"@ {
        Some(SubCategory::Retail)
    } else if k == "total"@ || k == "overall"@ {
        Some(SubCategory::Total)
    } else {
        None
    }
}

/// The category a source label denotes, compared without case and
/// surrounding whitespace.
pub open spec fn category_from_label(s: Seq<char>) -> Option<SubCategory> {
    category_from_key(lower_seq(trim(s)))
}

impl SubCategory {
    pub fn as_str(self) -> (r: &'static str)
        ensures
            r@ == category_name(self),
    {
        match self {
            SubCategory::Qib => "qib",
            SubCategory::Nii => "nii",
            SubCategory::Retail => "retail",
            SubCategory::Total => "total",
        }
    }

    /// Case-insensitive parse of the names NSE/Chittorgarh use.
    pub fn parse(s: &str) -> (r: Option<Self>)
        ensures
            r == category_from_label(s@),
    {
        let t = trim_str(s);
        let k = lower_vec(&t);
        Self::from_key(&k)
    }

    pub fn parse_chars(s: &Vec<char>) -> (r: Option<Self>)
        ensures
            r == category_from_label(s@),
    {
        let t = trim_vec(s);
        let k = lower_vec(&t);
        Self::from_key(&k)
    }

    fn from_key(k: &Vec<char>) -> (r: Option<Self>)
        ensures
            r == category_from_key(k@),
    {
        if vec_eq_str(k, "qib") || vec_eq_str(k, "qib (ex anchor)") || vec_eq_str(
            k,
            "qualified institutional buyers",
        ) {
            Some(SubCategory::Qib)
        } else if vec_eq_str(k, "nii") || vec_eq_str(k, "nib") || vec_eq_str(
            k,
            "non institutional investors",
        ) || vec_eq_str(k, "non-institutional investors") {
            Some(SubCategory::Nii)
        } else if vec_eq_str(k, "retail") || vec_eq_str(k, "rii") || vec_eq_str(
            k,
            "retail individual investors",
        ) {
            Some(SubCategory::Retail)
        } else if vec_eq_str(k, "total") || vec_eq_str(k, "overall") {
            Some(SubCategory::Total)
        } else {
            None
        }
    }
}

/// Parsing the stored name of a category gives that category back.
pub proof fn lemma_category_roundtrip(c: SubCategory)
    ensures
        category_from_label(category_name(c)) == Some(c),
{
    reveal_strlit("qib");
    reveal_strlit("nii");
    reveal_strlit("retail");
    reveal_strlit("total");
    reveal_strlit("nib");
    reveal_strlit("rii");
    reveal_strlit("overall");
    reveal_strlit("qib (ex anchor)");
    reveal_strlit("qualified institutional buyers");
    reveal_strlit("non institutional investors");
    reveal_strlit("non-institutional investors");
    reveal_strlit("retail individual investors");
    let n = category_name(c);
    lemma_trim_start_index(n);
    lemma_trim_end_index(n);
    assert(n.len() >= 3);
    assert(!unicode_white_space(n[0]));
    assert(!unicode_white_space(n.last()));
    assert(trim_start_index(n) == 0);
    assert(trim_end_index(n) == n.len());
    assert(trim(n) =~= n);
    assert(lower_seq(n) =~= n);
    assert("nii"@[2] != "nib"@[2]);
}

/// A label spelled in any ASCII case, with no whitespace at either end,
/// denotes what its lower-case spelling denotes.
proof fn lemma_label_any_case(x: Seq<char>, k: Seq<char>)
    requires
        lower_seq(x) == k,
        k.len() > 0,
        !unicode_white_space(k[0]),
        !unicode_white_space(k.last()),
    ensures
        category_from_label(x) == category_from_key(k),
{
    assert(lower(x[0]) == k[0]);
    assert(lower(x.last()) == k.last());
    lemma_lower_char(x[0]);
    lemma_lower_char(x.last());
    lemma_trim_start_index(x);
    lemma_trim_end_index(x);
    assert(!unicode_white_space(x[0]));
    assert(!unicode_white_space(x.last()));
    assert(trim_start_index(x) == 0);
    assert(trim_end_index(x) == x.len());
    assert(trim(x) =~= x);
}

/// The labels NSE and Chittorgarh print name their categories in any
/// case: "QIB", "QIB (Ex Anchor)" and "Qualified Institutional Buyers"
/// are QIB; "NII", "NIB" and "Non Institutional Investors" (with or
/// without the hyphen) are NII; "Retail", "RII" and "Retail Individual
/// Investors" are Retail; "Total" and "Overall" are Total. The same holds
/// with whitespace around the label.
pub proof fn lemma_category_labels(x: Seq<char>, s: Seq<char>)
    ensures
        lower_seq(x) == "retail individual investors"@ ==> category_from_label(x) == Some(
            SubCategory::Retail,
        ),
        lower_seq(x) == "retail"@ ==> category_from_label(x) == Some(SubCategory::Retail),
        lower_seq(x) == "rii"@ ==> category_from_label(x) == Some(SubCategory::Retail),
        lower_seq(x) == "qib"@ ==> category_from_label(x) == Some(SubCategory::Qib),
        lower_seq(x) == "qib (ex anchor)"@ ==> category_from_label(x) == Some(SubCategory::Qib),
        lower_seq(x) == "qualified institutional buyers"@ ==> category_from_label(x) == Some(
            SubCategory::Qib,
        ),
        lower_seq(x) == "nii"@ ==> category_from_label(x) == Some(SubCategory::Nii),
        lower_seq(x) == "nib"@ ==> category_from_label(x) == Some(SubCategory::Nii),
        lower_seq(x) == "non institutional investors"@ ==> category_from_label(x) == Some(
            SubCategory::Nii,
        ),
        lower_seq(x) == "non-institutional investors"@ ==> category_from_label(x) == Some(
            SubCategory::Nii,
        ),
        lower_seq(x) == "total"@ ==> category_from_label(x) == Some(SubCategory::Total),
        lower_seq(x) == "overall"@ ==> category_from_label(x) == Some(SubCategory::Total),
        lower_seq(trim(s)) == "retail individual investors"@ ==> category_from_label(s) == Some(
            SubCategory::Retail,
        ),
{
    reveal_strlit("qib");
    reveal_strlit("nii");
    reveal_strlit("retail");
    reveal_strlit("total");
    reveal_strlit("nib");
    reveal_strlit("rii");
    reveal_strlit("overall");
    reveal_strlit("qib (ex anchor)");
    reveal_strlit("qualified institutional buyers");
    reveal_strlit("non institutional investors");
    reveal_strlit("non-institutional investors");
    reveal_strlit("retail individual investors");
    let k = lower_seq(x);
    if k.len() > 0 && !unicode_white_space(k[0]) && !unicode_white_space(k.last()) {
        lemma_label_any_case(x, k);
    }
    assert("nii"@[2] != "nib"@[2]);
    assert("retail"@.len() != "rii"@.len());
    assert(category_from_key("retail individual investors"@) == Some(SubCategory::Retail)) by {
        assert("retail individual investors"@.len() != "qib"@.len());
        assert("retail individual investors"@.len() != "qib (ex anchor)"@.len());
        assert("retail individual investors"@[0] != "qualified institutional buyers"@[0]);
        assert("retail individual investors"@.len() != "nii"@.len());
        assert("retail individual investors"@.len() != "nib"@.len());
        assert("retail individual investors"@[0] != "non institutional investors"@[0]);
        assert("retail individual investors"@[0] != "non-institutional investors"@[0]);
    }
}

// ---------------------------------------------------------------------------
// Run outcomes
// ---------------------------------------------------------------------------

/// Outcome of a sync run for one source.
#[derive(Debug, Clone, Copy, PartialEq, Eq, Structural)]
pub enum RunStatus {
    Success,
    Partial,
    Failed,
}

pub open spec fn run_status_name(s: RunStatus) -> Seq<char> {
    match s {
        RunStatus::Success => "success"@,
        RunStatus::Partial => "partial"@,
        RunStatus::Failed => "failed"@,
    }
}

/// How a stored run-status column reads back: anything but `success` or
/// `partial` (including no value) reads as a failure.
pub open spec fn run_status_from_stored(s: Option<Seq<char>>) -> RunStatus {
    match s {
        Some(n) => if n == "success"@ {
            RunStatus::Success
        } else if n == "partial"@ {
            RunStatus::Partial
        } else {
            RunStatus::Failed
        },
        None => RunStatus::Failed,
    }
}

impl RunStatus {
    pub fn as_str(self) -> (r: &'static str)
        ensures
            r@ == run_status_name(self),
    {
        match self {
            RunStatus::Success => "success",
            RunStatus::Partial => "partial",
            RunStatus::Failed => "failed",
        }
    }

    /// Read back a stored run-status column.
    pub fn from_stored(s: Option<&str>) -> (r: RunStatus)
        ensures
            r == run_status_from_stored(
                match s {
                    Some(t) => Some(t@),
                    None => None,
                },
            ),
    {
        match s {
            Some(t) => {
                let v = chars_of(t);
                if vec_eq_str(&v, "success") {
                    RunStatus::Success
                } else if vec_eq_str(&v, "partial") {
                    RunStatus::Partial
                } else {
                    RunStatus::Failed
                }
            },
            None => RunStatus::Failed,
        }
    }
}

/// Reading back a stored run status gives that status back.
pub proof fn lemma_run_status_roundtrip(s: RunStatus)
    ensures
        run_status_from_stored(Some(run_status_name(s))) == s,
{
    reveal_strlit("success");
    reveal_strlit("partial");
    reveal_strlit("failed");
    assert("success"@[0] != "partial"@[0]);
    assert("failed"@.len() != "success"@.len());
    assert("failed"@.len() != "partial"@.len());
}

// ---------------------------------------------------------------------------
// Company-name identity key
// ---------------------------------------------------------------------------

/// The legal-entity suffixes stripped from company names, in the order
/// they are tried: longest first, so that a whole legal suffix goes
/// ("Acme Private Limited" → "acme", not "acme private").
pub open spec fn entity_suffix(i: int) -> Seq<char> {
    if i == 0 {
        " technologies limited"@
    } else if i == 1 {
        " technologies ltd"@
    } else if i == 2 {
        " private limited"@
    } else if i == 3 {
        " incorporated"@
    } else if i == 4 {
        " private ltd"@
    } else if i == 5 {
        " pvt. ltd."@
    } else if i == 6 {
        " limited."@
    } else if i == 7 {
        " pvt ltd"@
    } else if i == 8 {
        " limited"@
    } else if i == 9 {
        " ltd."@
    } else if i == 10 {
        " inc"@
    } else {
        " ltd"@
    }
}

pub open spec fn entity_suffix_count() -> int {
    12
}

/// Strip the first suffix (from position `i` of the list on) that `n` ends
/// with and that leaves a non-empty name once trailing whitespace is
/// dropped; `n` unchanged when none does.
pub open spec fn strip_entity_suffix(n: Seq<char>, i: int) -> Seq<char>
    decreases entity_suffix_count() - i,
{
    if i >= entity_suffix_count() || i < 0 {
        n
    } else {
        let suf = entity_suffix(i);
        let rest = trim_end(n.subrange(0, n.len() - suf.len()));
        if ends_with(n, suf) && rest.len() > 0 {
            rest
        } else {
            strip_entity_suffix(n, i + 1)
        }
    }
}

/// The cross-source identity key of a company name: lower-cased, one legal
/// suffix stripped, whitespace collapsed to single spaces.
pub open spec fn normalized_name(name: Seq<char>) -> Seq<char> {
    collapse_ws(strip_entity_suffix(lower_seq(name), 0))
}

/// Stripping a suffix keeps a prefix of the name, with a character other
/// than whitespace exactly when the name has one.
proof fn lemma_strip_keeps_prefix(n: Seq<char>, i: int) -> (k: int)
    ensures
        0 <= k <= n.len(),
        strip_entity_suffix(n, i) == n.subrange(0, k),
        has_non_ws(strip_entity_suffix(n, i)) == has_non_ws(n),
    decreases entity_suffix_count() - i,
{
    if i >= entity_suffix_count() || i < 0 {
        assert(n.subrange(0, n.len() as int) =~= n);
        n.len() as int
    } else {
        let suf = entity_suffix(i);
        let sub = n.subrange(0, n.len() - suf.len());
        let rest = trim_end(sub);
        if ends_with(n, suf) && rest.len() > 0 {
            lemma_trim_end_index(sub);
            let e = trim_end_index(sub);
            assert(rest =~= n.subrange(0, e));
            assert(!unicode_white_space(rest[e - 1]));
            assert(n[e - 1] == rest[e - 1]);
            e
        } else {
            lemma_strip_keeps_prefix(n, i + 1)
        }
    }
}

/// A trimmed text is empty exactly when the text is all whitespace.
proof fn lemma_trim_empty(s: Seq<char>)
    ensures
        (trim(s).len() == 0) == !has_non_ws(s),
{
    lemma_trim_start_index(s);
    lemma_trim_end_index(s);
    let a = trim_start_index(s);
    let b = trim_end_index(s);
    if has_non_ws(s) {
        let j = choose|j: int| 0 <= j < s.len() && !unicode_white_space(#[trigger] s[j]);
        assert(a <= j);
        assert(j < b);
    } else if a < b {
        assert(!unicode_white_space(s[a]));
    }
}

/// The identity key is a proper key: no upper-case ASCII letter, no
/// whitespace at either end and none inside but single spaces, empty only
/// for a blank name, and the same whatever the case of the name's ASCII
/// letters.
pub proof fn lemma_identity_key(name: Seq<char>)
    ensures
        forall|i: int|
            0 <= i < normalized_name(name).len() ==> !('A' <= #[trigger] normalized_name(name)[i]
                && normalized_name(name)[i] <= 'Z'),
        normalized_name(name).len() > 0 ==> !unicode_white_space(normalized_name(name)[0])
            && !unicode_white_space(normalized_name(name).last()),
        forall|i: int|
            0 <= i < normalized_name(name).len() ==> normalized_name(name)[i] == ' '
                || !unicode_white_space(#[trigger] normalized_name(name)[i]),
        forall|i: int|
            #![trigger normalized_name(name)[i]]
            0 <= i < normalized_name(name).len() - 1 ==> !(normalized_name(name)[i] == ' '
                && normalized_name(name)[i + 1] == ' '),
        (normalized_name(name).len() == 0) == (trim(name).len() == 0),
        normalized_name(upper_seq(name)) == normalized_name(name),
{
    let n = lower_seq(name);
    let k = lemma_strip_keeps_prefix(n, 0);
    let st = strip_entity_suffix(n, 0);
    lemma_collapse_ws(st);
    let r = normalized_name(name);
    assert forall|i: int| 0 <= i < r.len() implies !('A' <= #[trigger] r[i] && r[i] <= 'Z') by {
        if r[i] != ' ' {
            assert(st.contains(r[i]));
            let j = choose|j: int| 0 <= j < st.len() && st[j] == r[i];
            assert(st[j] == n[j]);
            lemma_lower_char(name[j]);
        }
    }
    assert(has_non_ws(n) == has_non_ws(name)) by {
        if has_non_ws(name) {
            let j = choose|j: int| 0 <= j < name.len() && !unicode_white_space(#[trigger] name[j]);
            lemma_lower_char(name[j]);
            assert(!unicode_white_space(n[j]));
        }
        if has_non_ws(n) {
            let j = choose|j: int| 0 <= j < n.len() && !unicode_white_space(#[trigger] n[j]);
            lemma_lower_char(name[j]);
            assert(!unicode_white_space(name[j]));
        }
    }
    lemma_trim_empty(name);
    assert(lower_seq(upper_seq(name)) =~= lower_seq(name)) by {
        assert forall|i: int| 0 <= i < name.len() implies lower(upper(name[i])) == lower(name[i]) by {
            lemma_lower_char(name[i]);
        }
    }
}

/// Whether `m + t` ends with `s`: by `t`'s end alone when `s` is no
/// longer than `t`, else `s` ends with `t` and `m` ends with the rest of `s`.
proof fn lemma_ends_with_appended(m: Seq<char>, t: Seq<char>, s: Seq<char>)
    ensures
        ends_with(m + t, s) == (if s.len() <= t.len() {
            ends_with(t, s)
        } else {
            ends_with(s, t) && ends_with(m, s.subrange(0, s.len() - t.len()))
        }),
{
    let n = m + t;
    if s.len() <= t.len() {
        assert(n.subrange(n.len() - s.len(), n.len() as int) =~= t.subrange(
            t.len() - s.len(),
            t.len() as int,
        ));
    } else if s.len() <= n.len() {
        let tail = n.subrange(n.len() - s.len(), n.len() as int);
        let k = s.len() - t.len();
        assert(tail.subrange(k, s.len() as int) =~= t);
        assert(tail.subrange(0, k) =~= m.subrange(m.len() - k, m.len() as int));
        if ends_with(s, t) && ends_with(m, s.subrange(0, k)) {
            assert(s.subrange(s.len() - t.len(), s.len() as int) == t);
            assert(tail =~= s) by {
                assert forall|i: int| 0 <= i < s.len() implies tail[i] == s[i] by {
                    if i < k {
                        assert(tail[i] == tail.subrange(0, k)[i]);
                        assert(s[i] == s.subrange(0, k)[i]);
                    } else {
                        assert(tail[i] == tail.subrange(k, s.len() as int)[i - k]);
                        assert(s[i] == s.subrange(s.len() - t.len(), s.len() as int)[i - k]);
                    }
                }
            }
        }
        if tail == s {
            assert(s.subrange(s.len() - t.len(), s.len() as int) =~= tail.subrange(k, s.len() as int));
            assert(s.subrange(0, k) =~= tail.subrange(0, k));
        }
    }
}

/// `m` with trailing whitespace dropped collapses to what `m` collapses to.
proof fn lemma_collapse_trim_end(m: Seq<char>)
    ensures
        collapse_ws(trim_end(m)) == collapse_ws(m),
    decreases m.len(),
{
    if m.len() > 0 && unicode_white_space(m.last()) {
        lemma_collapse_trim_end(m.drop_last());
        lemma_trim_end_index(m.drop_last());
        assert(trim_end(m) =~= trim_end(m.drop_last()));
    } else {
        assert(trim_end(m) =~= m);
    }
}

/// Lower-casing distributes over concatenation.
proof fn lemma_lower_concat(a: Seq<char>, b: Seq<char>)
    ensures
        lower_seq(a + b) == lower_seq(a) + lower_seq(b),
{
    assert(lower_seq(a + b) =~= lower_seq(a) + lower_seq(b));
}

/// Whether `m + t` ends with each listed suffix, for `t` a suffix itself.
proof fn lemma_suffix_matches(m: Seq<char>, t: Seq<char>)
    ensures
        forall|i: int|
            0 <= i < entity_suffix_count() ==> #[trigger] ends_with(m + t, entity_suffix(i)) == (if entity_suffix(i).len()
                <= t.len() {
                ends_with(t, entity_suffix(i))
            } else {
                ends_with(entity_suffix(i), t) && ends_with(
                    m,
                    entity_suffix(i).subrange(0, entity_suffix(i).len() - t.len()),
                )
            }),
{
    assert forall|i: int| 0 <= i < entity_suffix_count() implies #[trigger] ends_with(
        m + t,
        entity_suffix(i),
    ) == (if entity_suffix(i).len() <= t.len() {
        ends_with(t, entity_suffix(i))
    } else {
        ends_with(entity_suffix(i), t) && ends_with(
            m,
            entity_suffix(i).subrange(0, entity_suffix(i).len() - t.len()),
        )
    }) by {
        lemma_ends_with_appended(m, t, entity_suffix(i));
    }
}

/// Stripping from position `i` on, when suffix `j` is the first that `n`
/// ends with and it leaves a name, removes it.
proof fn lemma_strip_first_match(n: Seq<char>, i: int, j: int)
    requires
        0 <= i <= j < entity_suffix_count(),
        forall|k: int| i <= k < j ==> !ends_with(n, #[trigger] entity_suffix(k)),
        ends_with(n, entity_suffix(j)),
        trim_end(n.subrange(0, n.len() - entity_suffix(j).len())).len() > 0,
    ensures
        strip_entity_suffix(n, i) == trim_end(n.subrange(0, n.len() - entity_suffix(j).len())),
    decreases j - i,
{
    if i < j {
        lemma_strip_first_match(n, i + 1, j);
    }
}

/// A lower-case name with a character other than whitespace, followed by
/// suffix `j`, loses exactly that suffix (and the whitespace before it),
/// when no suffix tried before `j` matches.
proof fn lemma_strip_appended(m: Seq<char>, j: int)
    requires
        0 <= j < entity_suffix_count(),
        has_non_ws(m),
        forall|k: int| 0 <= k < j ==> !ends_with(m + entity_suffix(j), #[trigger] entity_suffix(k)),
    ensures
        strip_entity_suffix(m + entity_suffix(j), 0) == trim_end(m),
{
    let t = entity_suffix(j);
    let n = m + t;
    assert(n.subrange(n.len() - t.len(), n.len() as int) =~= t);
    assert(n.subrange(0, n.len() - t.len()) =~= m);
    lemma_trim_empty(m);
    lemma_trim_start_index(m);
    lemma_trim_end_index(m);
    if trim_end(m).len() == 0 {
        assert(trim_end_index(m) == 0);
        assert(trim(m).len() == 0);
    }
    lemma_strip_first_match(n, 0, j);
}

/// `s` does not end with `t`: they differ at position `idx` of `t`.
proof fn lemma_not_ends(s: Seq<char>, t: Seq<char>, idx: int)
    requires
        0 <= idx < t.len() <= s.len(),
        s[s.len() - t.len() + idx] != t[idx],
    ensures
        !ends_with(s, t),
{
    if ends_with(s, t) {
        assert(s.subrange(s.len() - t.len(), s.len() as int)[idx] == t[idx]);
    }
}

/// A lower-case name followed by " technologies limited" loses that suffix.
proof fn lemma_strip_technologies_limited(m: Seq<char>)
    requires
        has_non_ws(m),

    ensures
        strip_entity_suffix(m + " technologies limited"@, 0) == trim_end(m),
{
    reveal_strlit(" technologies limited");
    reveal_strlit(" technologies ltd");
    reveal_strlit(" private limited");
    reveal_strlit(" incorporated");
    reveal_strlit(" private ltd");
    reveal_strlit(" pvt. ltd.");
    reveal_strlit(" limited.");
    reveal_strlit(" pvt ltd");
    reveal_strlit(" limited");
    reveal_strlit(" ltd.");
    reveal_strlit(" inc");
    reveal_strlit(" ltd");

    let t = entity_suffix(0);
    lemma_suffix_matches(m, t);

    lemma_strip_appended(m, 0);
}

/// A lower-case name followed by " technologies ltd" loses that suffix.
proof fn lemma_strip_technologies_ltd(m: Seq<char>)
    requires
        has_non_ws(m),

    ensures
        strip_entity_suffix(m + " technologies ltd"@, 0) == trim_end(m),
{
    reveal_strlit(" technologies limited");
    reveal_strlit(" technologies ltd");
    reveal_strlit(" private limited");
    reveal_strlit(" incorporated");
    reveal_strlit(" private ltd");
    reveal_strlit(" pvt. ltd.");
    reveal_strlit(" limited.");
    reveal_strlit(" pvt ltd");
    reveal_strlit(" limited");
    reveal_strlit(" ltd.");
    reveal_strlit(" inc");
    reveal_strlit(" ltd");

    let t = entity_suffix(1);
    lemma_suffix_matches(m, t);
    lemma_not_ends(entity_suffix(0), entity_suffix(1), 0);
    lemma_strip_appended(m, 1);
}

/// A lower-case name followed by " private limited" loses that suffix.
proof fn lemma_strip_private_limited(m: Seq<char>)
    requires
        has_non_ws(m),

    ensures
        strip_entity_suffix(m + " private limited"@, 0) == trim_end(m),
{
    reveal_strlit(" technologies limited");
    reveal_strlit(" technologies ltd");
    reveal_strlit(" private limited");
    reveal_strlit(" incorporated");
    reveal_strlit(" private ltd");
    reveal_strlit(" pvt. ltd.");
    reveal_strlit(" limited.");
    reveal_strlit(" pvt ltd");
    reveal_strlit(" limited");
    reveal_strlit(" ltd.");
    reveal_strlit(" inc");
    reveal_strlit(" ltd");

    let t = entity_suffix(2);
    lemma_suffix_matches(m, t);
    lemma_not_ends(entity_suffix(0), entity_suffix(2), 0);
    lemma_not_ends(entity_suffix(1), entity_suffix(2), 0);
    lemma_strip_appended(m, 2);
}

/// A lower-case name followed by " incorporated" loses that suffix.
proof fn lemma_strip_incorporated(m: Seq<char>)
    requires
        has_non_ws(m),

    ensures
        strip_entity_suffix(m + " incorporated"@, 0) == trim_end(m),
{
    reveal_strlit(" technologies limited");
    reveal_strlit(" technologies ltd");
    reveal_strlit(" private limited");
    reveal_strlit(" incorporated");
    reveal_strlit(" private ltd");
    reveal_strlit(" pvt. ltd.");
    reveal_strlit(" limited.");
    reveal_strlit(" pvt ltd");
    reveal_strlit(" limited");
    reveal_strlit(" ltd.");
    reveal_strlit(" inc");
    reveal_strlit(" ltd");

    let t = entity_suffix(3);
    lemma_suffix_matches(m, t);
    lemma_not_ends(entity_suffix(0), entity_suffix(3), 0);
    lemma_not_ends(entity_suffix(1), entity_suffix(3), 0);
    lemma_not_ends(entity_suffix(2), entity_suffix(3), 0);
    lemma_strip_appended(m, 3);
}

/// A lower-case name followed by " private ltd" loses that suffix.
proof fn lemma_strip_private_ltd(m: Seq<char>)
    requires
        has_non_ws(m),

    ensures
        strip_entity_suffix(m + " private ltd"@, 0) == trim_end(m),
{
    reveal_strlit(" technologies limited");
    reveal_strlit(" technologies ltd");
    reveal_strlit(" private limited");
    reveal_strlit(" incorporated");
    reveal_strlit(" private ltd");
    reveal_strlit(" pvt. ltd.");
    reveal_strlit(" limited.");
    reveal_strlit(" pvt ltd");
    reveal_strlit(" limited");
    reveal_strlit(" ltd.");
    reveal_strlit(" inc");
    reveal_strlit(" ltd");

    let t = entity_suffix(4);
    lemma_suffix_matches(m, t);
    lemma_not_ends(entity_suffix(0), entity_suffix(4), 0);
    lemma_not_ends(entity_suffix(1), entity_suffix(4), 0);
    lemma_not_ends(entity_suffix(2), entity_suffix(4), 0);
    lemma_not_ends(entity_suffix(3), entity_suffix(4), 0);
    lemma_strip_appended(m, 4);
}

/// A lower-case name followed by " pvt. ltd." loses that suffix.
proof fn lemma_strip_pvt_dot_ltd_dot(m: Seq<char>)
    requires
        has_non_ws(m),

    ensures
        strip_entity_suffix(m + " pvt. ltd."@, 0) == trim_end(m),
{
    reveal_strlit(" technologies limited");
    reveal_strlit(" technologies ltd");
    reveal_strlit(" private limited");
    reveal_strlit(" incorporated");
    reveal_strlit(" private ltd");
    reveal_strlit(" pvt. ltd.");
    reveal_strlit(" limited.");
    reveal_strlit(" pvt ltd");
    reveal_strlit(" limited");
    reveal_strlit(" ltd.");
    reveal_strlit(" inc");
    reveal_strlit(" ltd");

    let t = entity_suffix(5);
    lemma_suffix_matches(m, t);
    lemma_not_ends(entity_suffix(0), entity_suffix(5), 0);
    lemma_not_ends(entity_suffix(1), entity_suffix(5), 0);
    lemma_not_ends(entity_suffix(2), entity_suffix(5), 0);
    lemma_not_ends(entity_suffix(3), entity_suffix(5), 0);
    lemma_not_ends(entity_suffix(4), entity_suffix(5), 0);
    lemma_strip_appended(m, 5);
}

/// A lower-case name followed by " limited." loses that suffix.
proof fn lemma_strip_limited_dot(m: Seq<char>)
    requires
        has_non_ws(m),

    ensures
        strip_entity_suffix(m + " limited."@, 0) == trim_end(m),
{
    reveal_strlit(" technologies limited");
    reveal_strlit(" technologies ltd");
    reveal_strlit(" private limited");
    reveal_strlit(" incorporated");
    reveal_strlit(" private ltd");
    reveal_strlit(" pvt. ltd.");
    reveal_strlit(" limited.");
    reveal_strlit(" pvt ltd");
    reveal_strlit(" limited");
    reveal_strlit(" ltd.");
    reveal_strlit(" inc");
    reveal_strlit(" ltd");

    let t = entity_suffix(6);
    lemma_suffix_matches(m, t);
    lemma_not_ends(entity_suffix(0), entity_suffix(6), 0);
    lemma_not_ends(entity_suffix(1), entity_suffix(6), 0);
    lemma_not_ends(entity_suffix(2), entity_suffix(6), 0);
    lemma_not_ends(entity_suffix(3), entity_suffix(6), 0);
    lemma_not_ends(entity_suffix(4), entity_suffix(6), 0);
    lemma_not_ends(entity_suffix(5), entity_suffix(6), 0);
    lemma_strip_appended(m, 6);
}

/// A lower-case name followed by " pvt ltd" loses that suffix.
proof fn lemma_strip_pvt_ltd(m: Seq<char>)
    requires
        has_non_ws(m),

    ensures
        strip_entity_suffix(m + " pvt ltd"@, 0) == trim_end(m),
{
    reveal_strlit(" technologies limited");
    reveal_strlit(" technologies ltd");
    reveal_strlit(" private limited");
    reveal_strlit(" incorporated");
    reveal_strlit(" private ltd");
    reveal_strlit(" pvt. ltd.");
    reveal_strlit(" limited.");
    reveal_strlit(" pvt ltd");
    reveal_strlit(" limited");
    reveal_strlit(" ltd.");
    reveal_strlit(" inc");
    reveal_strlit(" ltd");

    let t = entity_suffix(7);
    lemma_suffix_matches(m, t);
    lemma_not_ends(entity_suffix(0), entity_suffix(7), 1);
    lemma_not_ends(entity_suffix(1), entity_suffix(7), 0);
    lemma_not_ends(entity_suffix(2), entity_suffix(7), 1);
    lemma_not_ends(entity_suffix(3), entity_suffix(7), 0);
    lemma_not_ends(entity_suffix(4), entity_suffix(7), 0);
    lemma_not_ends(entity_suffix(5), entity_suffix(7), 0);
    lemma_not_ends(entity_suffix(6), entity_suffix(7), 0);
    lemma_strip_appended(m, 7);
}

/// A lower-case name followed by " limited" loses that suffix, unless the name ends in a word that makes a longer listed suffix with it.
proof fn lemma_strip_limited(m: Seq<char>)
    requires
        has_non_ws(m),
        !ends_with(m, " technologies"@),
        !ends_with(m, " private"@),
    ensures
        strip_entity_suffix(m + " limited"@, 0) == trim_end(m),
{
    reveal_strlit(" technologies limited");
    reveal_strlit(" technologies ltd");
    reveal_strlit(" private limited");
    reveal_strlit(" incorporated");
    reveal_strlit(" private ltd");
    reveal_strlit(" pvt. ltd.");
    reveal_strlit(" limited.");
    reveal_strlit(" pvt ltd");
    reveal_strlit(" limited");
    reveal_strlit(" ltd.");
    reveal_strlit(" inc");
    reveal_strlit(" ltd");
    reveal_strlit(" private");
    reveal_strlit(" technologies");
    let t = entity_suffix(8);
    lemma_suffix_matches(m, t);
    assert(entity_suffix(0).subrange(0, 13) =~= " technologies"@);
    lemma_not_ends(entity_suffix(1), entity_suffix(8), 0);
    assert(entity_suffix(2).subrange(0, 8) =~= " private"@);
    lemma_not_ends(entity_suffix(3), entity_suffix(8), 0);
    lemma_not_ends(entity_suffix(4), entity_suffix(8), 0);
    lemma_not_ends(entity_suffix(5), entity_suffix(8), 0);
    lemma_not_ends(entity_suffix(6), entity_suffix(8), 0);
    lemma_not_ends(entity_suffix(8), entity_suffix(7), 1);
    lemma_strip_appended(m, 8);
}

/// A lower-case name followed by " ltd." loses that suffix, unless the name ends in a word that makes a longer listed suffix with it.
proof fn lemma_strip_ltd_dot(m: Seq<char>)
    requires
        has_non_ws(m),
        !ends_with(m, " pvt."@),
    ensures
        strip_entity_suffix(m + " ltd."@, 0) == trim_end(m),
{
    reveal_strlit(" technologies limited");
    reveal_strlit(" technologies ltd");
    reveal_strlit(" private limited");
    reveal_strlit(" incorporated");
    reveal_strlit(" private ltd");
    reveal_strlit(" pvt. ltd.");
    reveal_strlit(" limited.");
    reveal_strlit(" pvt ltd");
    reveal_strlit(" limited");
    reveal_strlit(" ltd.");
    reveal_strlit(" inc");
    reveal_strlit(" ltd");
    reveal_strlit(" pvt.");
    let t = entity_suffix(9);
    lemma_suffix_matches(m, t);
    lemma_not_ends(entity_suffix(0), entity_suffix(9), 0);
    lemma_not_ends(entity_suffix(1), entity_suffix(9), 0);
    lemma_not_ends(entity_suffix(2), entity_suffix(9), 0);
    lemma_not_ends(entity_suffix(3), entity_suffix(9), 0);
    lemma_not_ends(entity_suffix(4), entity_suffix(9), 0);
    assert(entity_suffix(5).subrange(0, 5) =~= " pvt."@);
    lemma_not_ends(entity_suffix(6), entity_suffix(9), 0);
    lemma_not_ends(entity_suffix(7), entity_suffix(9), 0);
    lemma_not_ends(entity_suffix(8), entity_suffix(9), 0);
    lemma_strip_appended(m, 9);
}

/// A lower-case name followed by " inc" loses that suffix.
proof fn lemma_strip_inc(m: Seq<char>)
    requires
        has_non_ws(m),

    ensures
        strip_entity_suffix(m + " inc"@, 0) == trim_end(m),
{
    reveal_strlit(" technologies limited");
    reveal_strlit(" technologies ltd");
    reveal_strlit(" private limited");
    reveal_strlit(" incorporated");
    reveal_strlit(" private ltd");
    reveal_strlit(" pvt. ltd.");
    reveal_strlit(" limited.");
    reveal_strlit(" pvt ltd");
    reveal_strlit(" limited");
    reveal_strlit(" ltd.");
    reveal_strlit(" inc");
    reveal_strlit(" ltd");

    let t = entity_suffix(10);
    lemma_suffix_matches(m, t);
    lemma_not_ends(entity_suffix(0), entity_suffix(10), 0);
    lemma_not_ends(entity_suffix(1), entity_suffix(10), 1);
    lemma_not_ends(entity_suffix(2), entity_suffix(10), 0);
    lemma_not_ends(entity_suffix(3), entity_suffix(10), 0);
    lemma_not_ends(entity_suffix(4), entity_suffix(10), 1);
    lemma_not_ends(entity_suffix(5), entity_suffix(10), 0);
    lemma_not_ends(entity_suffix(6), entity_suffix(10), 0);
    lemma_not_ends(entity_suffix(7), entity_suffix(10), 1);
    lemma_not_ends(entity_suffix(8), entity_suffix(10), 0);
    lemma_not_ends(entity_suffix(9), entity_suffix(10), 0);
    lemma_strip_appended(m, 10);
}

/// A lower-case name followed by " ltd" loses that suffix, unless the name ends in a word that makes a longer listed suffix with it.
proof fn lemma_strip_ltd(m: Seq<char>)
    requires
        has_non_ws(m),
        !ends_with(m, " technologies"@),
        !ends_with(m, " private"@),
        !ends_with(m, " pvt"@),
    ensures
        strip_entity_suffix(m + " ltd"@, 0) == trim_end(m),
{
    reveal_strlit(" technologies limited");
    reveal_strlit(" technologies ltd");
    reveal_strlit(" private limited");
    reveal_strlit(" incorporated");
    reveal_strlit(" private ltd");
    reveal_strlit(" pvt. ltd.");
    reveal_strlit(" limited.");
    reveal_strlit(" pvt ltd");
    reveal_strlit(" limited");
    reveal_strlit(" ltd.");
    reveal_strlit(" inc");
    reveal_strlit(" ltd");
    reveal_strlit(" private");
    reveal_strlit(" pvt");
    reveal_strlit(" technologies");
    let t = entity_suffix(11);
    lemma_suffix_matches(m, t);
    lemma_not_ends(entity_suffix(0), entity_suffix(11), 0);
    assert(entity_suffix(1).subrange(0, 13) =~= " technologies"@);
    lemma_not_ends(entity_suffix(2), entity_suffix(11), 0);
    lemma_not_ends(entity_suffix(3), entity_suffix(11), 0);
    assert(entity_suffix(4).subrange(0, 8) =~= " private"@);
    lemma_not_ends(entity_suffix(5), entity_suffix(11), 0);
    lemma_not_ends(entity_suffix(6), entity_suffix(11), 0);
    assert(entity_suffix(7).subrange(0, 4) =~= " pvt"@);
    lemma_not_ends(entity_suffix(8), entity_suffix(11), 0);
    lemma_not_ends(entity_suffix(9), entity_suffix(11), 0);
    lemma_not_ends(entity_suffix(11), entity_suffix(10), 1);
    lemma_strip_appended(m, 11);
}

/// A name followed by a legal-entity suffix keys as the bare name: for a
/// name `n` with a character other than whitespace, `n` followed by any
/// listed suffix (" Limited", " Ltd", " Ltd.", " Inc", " Pvt Ltd", ...)
/// has the key of `n` lower-cased with its whitespace collapsed, so the
/// spellings of one suffix key alike (" Ltd" as " Limited", " Ltd." as
/// " Limited."). The exceptions are names that end in a word forming a
/// longer listed suffix with the one appended ("Technologies", "Private",
/// "Pvt", "Pvt."): then that whole suffix goes.
pub proof fn lemma_legal_suffix_stripped(n: Seq<char>)
    requires
        has_non_ws(n),
    ensures
        normalized_name(n + " Technologies Limited"@) == collapse_ws(lower_seq(n)),
        normalized_name(n + " Technologies Ltd"@) == collapse_ws(lower_seq(n)),
        normalized_name(n + " Private Limited"@) == collapse_ws(lower_seq(n)),
        normalized_name(n + " Incorporated"@) == collapse_ws(lower_seq(n)),
        normalized_name(n + " Private Ltd"@) == collapse_ws(lower_seq(n)),
        normalized_name(n + " Pvt. Ltd."@) == collapse_ws(lower_seq(n)),
        normalized_name(n + " Limited."@) == collapse_ws(lower_seq(n)),
        normalized_name(n + " Pvt Ltd"@) == collapse_ws(lower_seq(n)),
        !ends_with(lower_seq(n), " technologies"@) && !ends_with(lower_seq(n), " private"@) ==> normalized_name(n + " Limited"@) == collapse_ws(lower_seq(n)),
        !ends_with(lower_seq(n), " pvt."@) ==> normalized_name(n + " Ltd."@) == collapse_ws(lower_seq(n)),
        normalized_name(n + " Inc"@) == collapse_ws(lower_seq(n)),
        !ends_with(lower_seq(n), " technologies"@) && !ends_with(lower_seq(n), " private"@) && !ends_with(lower_seq(n), " pvt"@) ==> normalized_name(n + " Ltd"@) == collapse_ws(lower_seq(n)),
        !ends_with(lower_seq(n), " technologies"@) && !ends_with(lower_seq(n), " private"@)
            && !ends_with(lower_seq(n), " pvt"@) ==> normalized_name(n + " Ltd"@) == normalized_name(
            n + " Limited"@,
        ),
        !ends_with(lower_seq(n), " pvt."@) ==> normalized_name(n + " Ltd."@) == normalized_name(
            n + " Limited."@,
        ),
        !ends_with(lower_seq(n), " technologies"@) && !ends_with(lower_seq(n), " private"@)
            && !ends_with(lower_seq(n), " pvt."@) ==> normalized_name(n + " Ltd."@) == normalized_name(
            n + " Limited"@,
        ),
{
    let m = lower_seq(n);
    assert(has_non_ws(m)) by {
        let j = choose|j: int| 0 <= j < n.len() && !unicode_white_space(#[trigger] n[j]);
        lemma_lower_char(n[j]);
        assert(!unicode_white_space(m[j]));
    }
    lemma_collapse_trim_end(m);
    reveal_strlit(" Technologies Limited");
    reveal_strlit(" technologies limited");
    lemma_lower_concat(n, " Technologies Limited"@);
    assert(lower_seq(" Technologies Limited"@) =~= " technologies limited"@);
    lemma_strip_technologies_limited(m);
    reveal_strlit(" Technologies Ltd");
    reveal_strlit(" technologies ltd");
    lemma_lower_concat(n, " Technologies Ltd"@);
    assert(lower_seq(" Technologies Ltd"@) =~= " technologies ltd"@);
    lemma_strip_technologies_ltd(m);
    reveal_strlit(" Private Limited");
    reveal_strlit(" private limited");
    lemma_lower_concat(n, " Private Limited"@);
    assert(lower_seq(" Private Limited"@) =~= " private limited"@);
    lemma_strip_private_limited(m);
    reveal_strlit(" Incorporated");
    reveal_strlit(" incorporated");
    lemma_lower_concat(n, " Incorporated"@);
    assert(lower_seq(" Incorporated"@) =~= " incorporated"@);
    lemma_strip_incorporated(m);
    reveal_strlit(" Private Ltd");
    reveal_strlit(" private ltd");
    lemma_lower_concat(n, " Private Ltd"@);
    assert(lower_seq(" Private Ltd"@) =~= " private ltd"@);
    lemma_strip_private_ltd(m);
    reveal_strlit(" Pvt. Ltd.");
    reveal_strlit(" pvt. ltd.");
    lemma_lower_concat(n, " Pvt. Ltd."@);
    assert(lower_seq(" Pvt. Ltd."@) =~= " pvt. ltd."@);
    lemma_strip_pvt_dot_ltd_dot(m);
    reveal_strlit(" Limited.");
    reveal_strlit(" limited.");
    lemma_lower_concat(n, " Limited."@);
    assert(lower_seq(" Limited."@) =~= " limited."@);
    lemma_strip_limited_dot(m);
    reveal_strlit(" Pvt Ltd");
    reveal_strlit(" pvt ltd");
    lemma_lower_concat(n, " Pvt Ltd"@);
    assert(lower_seq(" Pvt Ltd"@) =~= " pvt ltd"@);
    lemma_strip_pvt_ltd(m);
    reveal_strlit(" Limited");
    reveal_strlit(" limited");
    lemma_lower_concat(n, " Limited"@);
    assert(lower_seq(" Limited"@) =~= " limited"@);
    if !ends_with(m, " technologies"@) && !ends_with(m, " private"@) {
        lemma_strip_limited(m);
    }
    reveal_strlit(" Ltd.");
    reveal_strlit(" ltd.");
    lemma_lower_concat(n, " Ltd."@);
    assert(lower_seq(" Ltd."@) =~= " ltd."@);
    if !ends_with(m, " pvt."@) {
        lemma_strip_ltd_dot(m);
    }
    reveal_strlit(" Inc");
    reveal_strlit(" inc");
    lemma_lower_concat(n, " Inc"@);
    assert(lower_seq(" Inc"@) =~= " inc"@);
    lemma_strip_inc(m);
    reveal_strlit(" Ltd");
    reveal_strlit(" ltd");
    lemma_lower_concat(n, " Ltd"@);
    assert(lower_seq(" Ltd"@) =~= " ltd"@);
    if !ends_with(m, " technologies"@) && !ends_with(m, " private"@) && !ends_with(m, " pvt"@) {
        lemma_strip_ltd(m);
    }
}

fn entity_suffix_at(i: usize) -> (r: &'static str)
    requires
        i < 12,
    ensures
        r@ == entity_suffix(i as int),
{
    if i == 0 {
        " technologies limited"
    } else if i == 1 {
        " technologies ltd"
    } else if i == 2 {
        " private limited"
    } else if i == 3 {
        " incorporated"
    } else if i == 4 {
        " private ltd"
    } else if i == 5 {
        " pvt. ltd."
    } else if i == 6 {
        " limited."
    } else if i == 7 {
        " pvt ltd"
    } else if i == 8 {
        " limited"
    } else if i == 9 {
        " ltd."
    } else if i == 10 {
        " inc"
    } else {
        " ltd"
    }
}

/// Strip the legal-entity suffix and lowercase, for cross-source identity.
pub fn normalize_company_name(name: &str) -> (r: String)
    ensures
        r@ == normalized_name(name@),
{
    let chars = chars_of(name);
    let n = lower_vec(&chars);
    let stripped = strip_suffix_from(&n, 0);
    let collapsed = collapse_ws_vec(&stripped);
    string_from(&collapsed)
}

fn strip_suffix_from(n: &Vec<char>, i: usize) -> (r: Vec<char>)
    requires
        i <= 12,
    ensures
        r@ == strip_entity_suffix(n@, i as int),
    decreases 12 - i,
{
    if i >= 12 {
        return n.clone();
    }
    let suf = chars_of(entity_suffix_at(i));
    if ends_with_vec(n, &suf) {
        let head = slice_vec(n, 0, n.len() - suf.len());
        let rest = trim_end_vec(&head);
        if rest.len() > 0 {
            return rest;
        }
    }
    strip_suffix_from(n, i + 1)
}

// ---------------------------------------------------------------------------
// Domain records
// ---------------------------------------------------------------------------

/// One IPO — the mutable current-state row. `status` is the live lifecycle
/// state; subscription and price data live in append-only tables.
#[derive(Debug, Clone, PartialEq)]
pub struct Ipo {
    pub id: Option<i64>,
    pub company_name: String,
    /// Lower-cased, suffix-stripped name used as the cross-source identity key.
    pub normalized_name: String,
    /// Ticker; absent until allotted.
    pub symbol: Option<String>,
    /// Free text: "NSE" or "BSE, NSE" etc.
    pub exchange: Option<String>,
    pub sector: Option<String>,
    pub status: IpoStatus,
    pub price_band_low: Option<Decimal>,
    pub price_band_high: Option<Decimal>,
    pub final_price: Option<Decimal>,
    pub face_value: Option<Decimal>,
    /// Minimum shares per application.
    pub lot_size: Option<i64>,
    /// Multiples of the lot per application step.
    pub lot_multiples: Option<i64>,
    /// Total issue size in ₹ crore.
    pub issue_size_cr: Option<Decimal>,
    /// Shares offered in total (from NSE calendar `issueSize`).
    pub shares_offered: Option<i64>,
    /// Fresh-issue shares (Chittorgarh).
    pub fresh_issue_shares: Option<i64>,
    /// Offer-for-sale shares (Chittorgarh).
    pub ofs_shares: Option<i64>,
    /// "Bookbuilding" | "Fixed Price" (NSE: "100% Book Building").
    pub issue_type: Option<String>,
    /// "Fresh capital cum OFS" | "Fresh Issue" | "Offer for Sale" (Chittorgarh).
    pub offer_type: Option<String>,
    pub open_date: Option<Date>,
    pub close_date: Option<Date>,
    pub allotment_date: Option<Date>,
    pub listing_date: Option<Date>,
    /// Chittorgarh marks tentative listing dates.
    pub listing_date_tentative: bool,
    pub drhp_url: Option<String>,
    pub rhp_url: Option<String>,
    /// Chittorgarh detail-page URL (for enrichment re-runs and the dossier).
    pub detail_url: Option<String>,
    /// Which scraper wrote this row: "nse" | "chittorgarh" | "ipowatch".
    pub source: String,
    pub ingested_at: DateTime,
    pub updated_at: DateTime,
}

/// The lifecycle status that open/close/listing dates give for `today`:
/// not yet open → upcoming; listed on or before today → listed; inside the
/// bidding window (a listing date still ahead does not matter) → open;
/// after the close → closed; no dates at all → upcoming; otherwise closed.
pub open spec fn derived_status(
    open: Option<Date>,
    close: Option<Date>,
    listing: Option<Date>,
    today: Date,
) -> IpoStatus {
    if open is Some && close is Some && date_lt(today, open->0) {
        IpoStatus::Upcoming
    } else if listing is Some && date_le(listing->0, today) {
        IpoStatus::Listed
    } else if open is Some && close is Some && date_le(open->0, today) && date_le(
        today,
        close->0,
    ) {
        IpoStatus::Open
    } else if open is Some && close is Some && date_lt(close->0, today) {
        IpoStatus::Closed
    } else if open is None && close is None && listing is None {
        IpoStatus::Upcoming
    } else {
        IpoStatus::Closed
    }
}

/// A fresh record: the given name, its key, the given source, both
/// timestamps equal, status upcoming and every other field empty.
pub open spec fn fresh_ipo(company: Seq<char>, source: Seq<char>, ipo: Ipo) -> bool {
    &&& ipo.id is None
    &&& ipo.company_name@ == company
    &&& ipo.normalized_name@ == normalized_name(company)
    &&& ipo.symbol is None
    &&& ipo.exchange is None
    &&& ipo.sector is None
    &&& ipo.status == IpoStatus::Upcoming
    &&& ipo.price_band_low is None
    &&& ipo.price_band_high is None
    &&& ipo.final_price is None
    &&& ipo.face_value is None
    &&& ipo.lot_size is None
    &&& ipo.lot_multiples is None
    &&& ipo.issue_size_cr is None
    &&& ipo.shares_offered is None
    &&& ipo.fresh_issue_shares is None
    &&& ipo.ofs_shares is None
    &&& ipo.issue_type is None
    &&& ipo.offer_type is None
    &&& ipo.open_date is None
    &&& ipo.close_date is None
    &&& ipo.allotment_date is None
    &&& ipo.listing_date is None
    &&& !ipo.listing_date_tentative
    &&& ipo.drhp_url is None
    &&& ipo.rhp_url is None
    &&& ipo.detail_url is None
    &&& ipo.source@ == source
    &&& ipo.ingested_at == ipo.updated_at
    &&& ipo.ingested_at.wf()
}

impl Ipo {
    /// A new record for `company_name` from `source`, stamped with the
    /// current time.
    pub fn new(company_name: &str, source: &str) -> (ipo: Ipo)
        ensures
            fresh_ipo(company_name@, source@, ipo),
    {
        let now = now_utc();
        let normalized = normalize_company_name(company_name);
        Ipo {
            id: None,
            company_name: company_name.to_owned(),
            normalized_name: normalized,
            symbol: None,
            exchange: None,
            sector: None,
            status: IpoStatus::Upcoming,
            price_band_low: None,
            price_band_high: None,
            final_price: None,
            face_value: None,
            lot_size: None,
            lot_multiples: None,
            issue_size_cr: None,
            shares_offered: None,
            fresh_issue_shares: None,
            ofs_shares: None,
            issue_type: None,
            offer_type: None,
            open_date: None,
            close_date: None,
            allotment_date: None,
            listing_date: None,
            listing_date_tentative: false,
            drhp_url: None,
            rhp_url: None,
            detail_url: None,
            source: source.to_owned(),
            ingested_at: now,
            updated_at: now,
        }
    }

    /// Derive lifecycle status from open/close/listing dates against `today`.
    pub fn derive_status(&mut self, today: Date)
        ensures
            final(self).status == derived_status(
                old(self).open_date,
                old(self).close_date,
                old(self).listing_date,
                today,
            ),
            *final(self) == (Ipo { status: final(self).status, ..*old(self) }),
    {
        let status = status_for(self.open_date, self.close_date, self.listing_date, today);
        self.status = status;
    }
}

/// The lifecycle status that open/close/listing dates give for `today`.
pub fn status_for(open: Option<Date>, close: Option<Date>, listing: Option<Date>, today: Date) -> (r:
    IpoStatus)
    ensures
        r == derived_status(open, close, listing, today),
{
    match (open, close, listing) {
        (Some(o), Some(_), _) if date_before(today, o) => IpoStatus::Upcoming,
        (_, _, Some(l)) if !date_before(today, l) => IpoStatus::Listed,
        (Some(o), Some(c), _) if !date_before(today, o) && !date_before(c, today) => IpoStatus::Open,
        (Some(_), Some(c), _) if date_before(c, today) => IpoStatus::Closed,
        (None, None, None) => IpoStatus::Upcoming,
        _ => IpoStatus::Closed,
    }
}

/// Position of a status along the lifecycle upcoming → open → closed →
/// listed.
pub open spec fn lifecycle_rank(s: IpoStatus) -> int {
    match s {
        IpoStatus::Upcoming => 0,
        IpoStatus::Open => 1,
        IpoStatus::Closed => 2,
        IpoStatus::Listed => 3,
        IpoStatus::Withdrawn => 4,
    }
}

/// The derived status only moves forward along upcoming → open → closed →
/// listed as `today` advances, whatever dates are known.
pub proof fn lemma_status_moves_forward(
    open: Option<Date>,
    close: Option<Date>,
    listing: Option<Date>,
    d1: Date,
    d2: Date,
)
    requires
        date_le(d1, d2),
    ensures
        lifecycle_rank(derived_status(open, close, listing, d1)) <= lifecycle_rank(
            derived_status(open, close, listing, d2),
        ),
{
}

/// One append-only subscription snapshot row: (ipo, snapshot day, category).
#[derive(Debug, Clone, PartialEq)]
pub struct SubscriptionSnapshot {
    pub id: Option<i64>,
    pub ipo_id: Option<i64>,
    /// The day the poll reflects (usually the poll date).
    pub snapshot_at: Date,
    pub category: SubCategory,
    pub offered_shares: Option<i64>,
    pub bid_shares: Option<i64>,
    /// Times subscribed — the primary demand signal.
    pub times_subscribed: Option<Decimal>,
    pub source: String,
    pub ingested_at: DateTime,
}

impl SubscriptionSnapshot {
    /// A new snapshot row with no figures yet, stamped with the current time.
    pub fn new(ipo_id: i64, snapshot_at: Date, category: SubCategory, source: &str) -> (s: Self)
        ensures
            s.id is None,
            s.ipo_id == Some(ipo_id),
            s.snapshot_at == snapshot_at,
            s.category == category,
            s.offered_shares is None,
            s.bid_shares is None,
            s.times_subscribed is None,
            s.source@ == source@,
            s.ingested_at.wf(),
    {
        SubscriptionSnapshot {
            id: None,
            ipo_id: Some(ipo_id),
            snapshot_at,
            category,
            offered_shares: None,
            bid_shares: None,
            times_subscribed: None,
            source: source.to_owned(),
            ingested_at: now_utc(),
        }
    }
}

/// One append-only EOD price row: (ipo, trade date).
#[derive(Debug, Clone, PartialEq)]
pub struct PricePoint {
    pub id: Option<i64>,
    pub ipo_id: Option<i64>,
    pub trade_date: Date,
    pub open_price: Option<Decimal>,
    pub high_price: Option<Decimal>,
    pub low_price: Option<Decimal>,
    pub close_price: Option<Decimal>,
    pub volume: Option<i64>,
    pub vwap: Option<Decimal>,
    pub source: String,
    pub ingested_at: DateTime,
}

impl PricePoint {
    /// A new price row with no figures yet, stamped with the current time.
    pub fn new(ipo_id: i64, trade_date: Date, source: &str) -> (p: Self)
        ensures
            p.id is None,
            p.ipo_id == Some(ipo_id),
            p.trade_date == trade_date,
            p.open_price is None,
            p.high_price is None,
            p.low_price is None,
            p.close_price is None,
            p.volume is None,
            p.vwap is None,
            p.source@ == source@,
            p.ingested_at.wf(),
    {
        PricePoint {
            id: None,
            ipo_id: Some(ipo_id),
            trade_date,
            open_price: None,
            high_price: None,
            low_price: None,
            close_price: None,
            volume: None,
            vwap: None,
            source: source.to_owned(),
            ingested_at: now_utc(),
        }
    }
}

/// One ingestion run — the audit row for a sync pass.
#[derive(Debug, Clone, PartialEq)]
pub struct IngestionRun {
    pub id: Option<i64>,
    pub source: String,
    pub started_at: DateTime,
    pub finished_at: Option<DateTime>,
    pub status: Option<RunStatus>,
    pub records_written: i64,
    pub notes: Option<String>,
}

// ---------------------------------------------------------------------------
// Well-formed records
// ---------------------------------------------------------------------------

/// An absent amount, or one `rust_decimal` can hold.
pub open spec fn amount_wf(d: Option<Decimal>) -> bool {
    d matches Some(x) ==> x.wf()
}

/// An absent date, or a real one.
pub open spec fn day_wf(d: Option<Date>) -> bool {
    d matches Some(x) ==> x.wf()
}

fn amount_ok(d: Option<Decimal>) -> (r: bool)
    ensures
        r == amount_wf(d),
{
    match d {
        Some(x) => x.mantissa < 79228162514264337593543950336u128 && x.scale <= 28,
        None => true,
    }
}

fn day_ok(d: Option<Date>) -> (r: bool)
    ensures
        r == day_wf(d),
{
    match d {
        Some(x) => x.is_valid(),
        None => true,
    }
}

impl Ipo {
    /// Every amount and every date of the record is well formed.
    pub open spec fn wf(self) -> bool {
        &&& amount_wf(self.price_band_low)
        &&& amount_wf(self.price_band_high)
        &&& amount_wf(self.final_price)
        &&& amount_wf(self.face_value)
        &&& amount_wf(self.issue_size_cr)
        &&& day_wf(self.open_date)
        &&& day_wf(self.close_date)
        &&& day_wf(self.allotment_date)
        &&& day_wf(self.listing_date)
    }

    /// Whether every amount and date of the record is well formed.
    pub fn is_wf(&self) -> (r: bool)
        ensures
            r == self.wf(),
    {
        amount_ok(self.price_band_low) && amount_ok(self.price_band_high) && amount_ok(
            self.final_price,
        ) && amount_ok(self.face_value) && amount_ok(self.issue_size_cr) && day_ok(self.open_date)
            && day_ok(self.close_date) && day_ok(self.allotment_date) && day_ok(self.listing_date)
    }
}

impl SubscriptionSnapshot {
    /// The poll day is a real date and the times subscribed well formed.
    pub open spec fn wf(self) -> bool {
        self.snapshot_at.wf() && amount_wf(self.times_subscribed)
    }

    /// Whether the poll day and the times subscribed are well formed.
    pub fn is_wf(&self) -> (r: bool)
        ensures
            r == self.wf(),
    {
        self.snapshot_at.is_valid() && amount_ok(self.times_subscribed)
    }
}

impl PricePoint {
    /// The trade date is a real date and every price well formed.
    pub open spec fn wf(self) -> bool {
        &&& self.trade_date.wf()
        &&& amount_wf(self.open_price)
        &&& amount_wf(self.high_price)
        &&& amount_wf(self.low_price)
        &&& amount_wf(self.close_price)
        &&& amount_wf(self.vwap)
    }

    /// Whether the trade date and every price are well formed.
    pub fn is_wf(&self) -> (r: bool)
        ensures
            r == self.wf(),
    {
        self.trade_date.is_valid() && amount_ok(self.open_price) && amount_ok(self.high_price)
            && amount_ok(self.low_price) && amount_ok(self.close_price) && amount_ok(self.vwap)
    }
}

/// Whether two optional dates are the same.
pub fn opt_date_eq(a: Option<Date>, b: Option<Date>) -> (r: bool)
    ensures
        r == (a == b),
{
    match (a, b) {
        (Some(x), Some(y)) => x == y,
        (None, None) => true,
        _ => false,
    }
}

} // verus!

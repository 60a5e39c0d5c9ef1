//! Character-level helpers shared by the parsers and formatters.
//!
//! Text is handled as `Vec<char>` inside the library; `&str` and `String`
//! appear only at the public boundary.

use vstd::prelude::*;

verus! {

/// Unicode `White_Space` outside ASCII (`char::is_whitespace`): next line
/// U+0085, no-break space U+00A0, Ogham space mark U+1680, the spaces
/// U+2000 to U+200A, line and paragraph separators U+2028 and U+2029,
/// narrow no-break space U+202F, medium mathematical space U+205F and
/// ideographic space U+3000.
pub open spec fn white_space_beyond_ascii(c: char) -> bool {
    let u = c as u32;
    ||| u == 0x85
    ||| u == 0xA0
    ||| u == 0x1680
    ||| 0x2000 <= u <= 0x200A
    ||| u == 0x2028
    ||| u == 0x2029
    ||| u == 0x202F
    ||| u == 0x205F
    ||| u == 0x3000
}

/// Unicode alphabetic-or-numeric outside ASCII, as `char::is_alphanumeric`
/// reports it.
pub uninterp spec fn alphanumeric_beyond_ascii(c: char) -> bool;

/// ASCII decimal digit.
pub open spec fn is_digit(c: char) -> bool {
    '0' <= c && c <= '9'
}

/// ASCII letter.
pub open spec fn is_ascii_alpha(c: char) -> bool {
    ('a' <= c && c <= 'z') || ('A' <= c && c <= 'Z')
}

/// ASCII lower-casing of one character (other characters are unchanged).
pub open spec fn lower(c: char) -> char {
    if 'A' <= c && c <= 'Z' {
        ((c as u32) + 32) as char
    } else {
        c
    }
}

/// ASCII upper-casing of one character (other characters are unchanged).
pub open spec fn upper(c: char) -> char {
    if 'a' <= c && c <= 'z' {
        ((c as u32) - 32) as char
    } else {
        c
    }
}

/// ASCII upper-casing of a sequence (`str::to_ascii_uppercase`).
pub open spec fn upper_seq(s: Seq<char>) -> Seq<char> {
    Seq::new(s.len(), |i: int| upper(s[i]))
}

/// Lower-casing forgets the case of ASCII letters, leaves no upper-case
/// ASCII letter, and keeps whitespace whitespace and the rest the rest.
pub(crate) proof fn lemma_lower_char(c: char)
    ensures
        lower(upper(c)) == lower(c),
        !('A' <= lower(c) && lower(c) <= 'Z'),
        unicode_white_space(lower(c)) == unicode_white_space(c),
{
    if 'A' <= c && c <= 'Z' {
        assert((((c as u32) + 32) as char) as u32 == (c as u32) + 32);
    }
    if 'a' <= c && c <= 'z' {
        assert((((c as u32) - 32) as char) as u32 == (c as u32) - 32);
        assert(((((((c as u32) - 32) as char) as u32) + 32) as char) as u32 == c as u32);
    }
}

/// ASCII lower-casing of a sequence.
pub open spec fn lower_seq(s: Seq<char>) -> Seq<char> {
    Seq::new(s.len(), |i: int| lower(s[i]))
}

/// Whitespace as the standard library classifies it, spelled out on ASCII.
pub open spec fn ascii_white_space(c: char) -> bool {
    c == ' ' || c == '\t' || c == '\n' || c == '\r' || c == '\x0B' || c == '\x0C'
}

/// Unicode `White_Space`.
pub open spec fn unicode_white_space(c: char) -> bool {
    if (c as u32) < 128 {
        ascii_white_space(c)
    } else {
        white_space_beyond_ascii(c)
    }
}

/// Unicode alphabetic or numeric.
pub open spec fn unicode_alphanumeric(c: char) -> bool {
    if (c as u32) < 128 {
        is_digit(c) || is_ascii_alpha(c)
    } else {
        alphanumeric_beyond_ascii(c)
    }
}

/// `char::is_whitespace`: Unicode `White_Space` (on ASCII: space, tab,
/// line feed, carriage return, vertical tab and form feed).
#[verifier::external_body]
pub(crate) fn is_whitespace(c: char) -> (b: bool)
    ensures
        b == (if (c as u32) < 128 {
            ascii_white_space(c)
        } else {
            white_space_beyond_ascii(c)
        }),
{
    c.is_whitespace()
}

/// `char::is_alphanumeric`: Unicode alphabetic or numeric (on ASCII: the
/// letters and the digits).
#[verifier::external_body]
pub(crate) fn is_alphanumeric(c: char) -> (b: bool)
    ensures
        b == (if (c as u32) < 128 {
            is_digit(c) || is_ascii_alpha(c)
        } else {
            alphanumeric_beyond_ascii(c)
        }),
{
    c.is_alphanumeric()
}

/// `String::push`: appends one character.
#[verifier::external_body]
pub(crate) fn push_char(s: &mut String, c: char)
    ensures
        final(s)@ == old(s)@.push(c),
{
    s.push(c);
}

pub fn is_digit_char(c: char) -> (b: bool)
    ensures
        b == is_digit(c),
{
    '0' <= c && c <= '9'
}

pub fn lower_char(c: char) -> (r: char)
    ensures
        r == lower(c),
{
    if 'A' <= c && c <= 'Z' {
        let b: u8 = c as u8;
        let r: char = (b + 32) as char;
        assert(r == ((c as u32) + 32) as char);
        r
    } else {
        c
    }
}

/// The characters of a string slice, in order.
pub fn chars_of(s: &str) -> (v: Vec<char>)
    ensures
        v@ == s@,
{
    let mut v: Vec<char> = Vec::new();
    for c in it: s.chars()
        invariant
            v@ == it.seq().take(it.index() as int),
            it.seq() == s@,
    {
        v.push(c);
    }
    v
}

/// A `String` holding exactly the given characters.
pub fn string_from(v: &Vec<char>) -> (s: String)
    ensures
        s@ == v@,
{
    let mut s = String::new();
    let mut i: usize = 0;
    while i < v.len()
        invariant
            i <= v.len(),
            s@ == v@.take(i as int),
        decreases v.len() - i,
    {
        push_char(&mut s, v[i]);
        i = i + 1;
        assert(s@ =~= v@.take(i as int));
    }
    assert(v@.take(v.len() as int) =~= v@);
    s
}

/// ASCII lower-casing of a character vector.
pub fn lower_vec(v: &Vec<char>) -> (r: Vec<char>)
    ensures
        r@ == lower_seq(v@),
{
    let mut r: Vec<char> = Vec::new();
    let mut i: usize = 0;
    while i < v.len()
        invariant
            i <= v.len(),
            r@ == lower_seq(v@.take(i as int)),
        decreases v.len() - i,
    {
        let c = lower_char(v[i]);
        r.push(c);
        i = i + 1;
        assert(r@ =~= lower_seq(v@.take(i as int)));
    }
    assert(v@.take(v.len() as int) =~= v@);
    r
}

/// Index of the first non-whitespace character (or the length).
pub open spec fn trim_start_index(s: Seq<char>) -> int
    decreases s.len(),
{
    if s.len() > 0 && unicode_white_space(s[0]) {
        1 + trim_start_index(s.drop_first())
    } else {
        0
    }
}

/// One past the last non-whitespace character (or zero).
pub open spec fn trim_end_index(s: Seq<char>) -> int
    decreases s.len(),
{
    if s.len() > 0 && unicode_white_space(s.last()) {
        trim_end_index(s.drop_last())
    } else {
        s.len() as int
    }
}

/// `str::trim`: drop leading and trailing whitespace.
pub open spec fn trim(s: Seq<char>) -> Seq<char> {
    let a = trim_start_index(s);
    let b = trim_end_index(s);
    if a < b { s.subrange(a, b) } else { Seq::empty() }
}

/// Everything before the trim start is whitespace, and the character at
/// it is not.
pub(crate) proof fn lemma_trim_start_index(s: Seq<char>)
    ensures
        0 <= trim_start_index(s) <= s.len(),
        forall|k: int| 0 <= k < trim_start_index(s) ==> unicode_white_space(#[trigger] s[k]),
        trim_start_index(s) < s.len() ==> !unicode_white_space(s[trim_start_index(s)]),
    decreases s.len(),
{
    if s.len() > 0 && unicode_white_space(s[0]) {
        lemma_trim_start_index(s.drop_first());
        assert forall|k: int| 0 <= k < trim_start_index(s) implies unicode_white_space(
            #[trigger] s[k],
        ) by {
            if k > 0 {
                assert(s[k] == s.drop_first()[k - 1]);
            }
        }
    }
}

/// Everything from the trim end on is whitespace, and the character before
/// it is not.
pub(crate) proof fn lemma_trim_end_index(s: Seq<char>)
    ensures
        0 <= trim_end_index(s) <= s.len(),
        forall|k: int| trim_end_index(s) <= k < s.len() ==> unicode_white_space(#[trigger] s[k]),
        trim_end_index(s) > 0 ==> !unicode_white_space(s[trim_end_index(s) - 1]),
    decreases s.len(),
{
    if s.len() > 0 && unicode_white_space(s.last()) {
        lemma_trim_end_index(s.drop_last());
        assert forall|k: int| trim_end_index(s) <= k < s.len() implies unicode_white_space(
            #[trigger] s[k],
        ) by {
            if k < s.len() - 1 {
                assert(s[k] == s.drop_last()[k]);
            }
        }
    }
}

/// Characters of `v` in `[lo, hi)`.
pub fn slice_vec(v: &Vec<char>, lo: usize, hi: usize) -> (r: Vec<char>)
    requires
        lo <= hi <= v.len(),
    ensures
        r@ == v@.subrange(lo as int, hi as int),
{
    let mut r: Vec<char> = Vec::new();
    let mut i = lo;
    while i < hi
        invariant
            lo <= i <= hi <= v.len(),
            r@ == v@.subrange(lo as int, i as int),
        decreases hi - i,
    {
        r.push(v[i]);
        i = i + 1;
        assert(r@ =~= v@.subrange(lo as int, i as int));
    }
    r
}

/// `str::trim` on a character vector.
pub fn trim_vec(v: &Vec<char>) -> (r: Vec<char>)
    ensures
        r@ == trim(v@),
{
    proof {
        lemma_trim_start_index(v@);
        lemma_trim_end_index(v@);
    }
    let mut a: usize = 0;
    while a < v.len() && is_whitespace(v[a])
        invariant
            a <= v.len(),
            a <= trim_start_index(v@),
            forall|k: int| 0 <= k < trim_start_index(v@) ==> unicode_white_space(#[trigger] v@[k]),
            trim_start_index(v@) < v@.len() ==> !unicode_white_space(v@[trim_start_index(v@)]),
            0 <= trim_start_index(v@) <= v@.len(),
        decreases v.len() - a,
    {
        a = a + 1;
    }
    assert(a == trim_start_index(v@));
    let mut b: usize = v.len();
    while b > 0 && is_whitespace(v[b - 1])
        invariant
            b <= v.len(),
            b >= trim_end_index(v@),
            forall|k: int| trim_end_index(v@) <= k < v@.len() ==> unicode_white_space(#[trigger] v@[k]),
            trim_end_index(v@) > 0 ==> !unicode_white_space(v@[trim_end_index(v@) - 1]),
            0 <= trim_end_index(v@) <= v@.len(),
        decreases b,
    {
        b = b - 1;
    }
    assert(b == trim_end_index(v@));
    if a < b {
        slice_vec(v, a, b)
    } else {
        Vec::new()
    }
}

/// `str::trim_end`: drop trailing whitespace.
pub open spec fn trim_end(s: Seq<char>) -> Seq<char> {
    s.subrange(0, trim_end_index(s))
}

/// `str::trim_end` on a character vector.
pub fn trim_end_vec(v: &Vec<char>) -> (r: Vec<char>)
    ensures
        r@ == trim_end(v@),
{
    proof {
        lemma_trim_end_index(v@);
    }
    let mut b: usize = v.len();
    while b > 0 && is_whitespace(v[b - 1])
        invariant
            b <= v.len(),
            b >= trim_end_index(v@),
            forall|k: int| trim_end_index(v@) <= k < v@.len() ==> unicode_white_space(#[trigger] v@[k]),
            trim_end_index(v@) > 0 ==> !unicode_white_space(v@[trim_end_index(v@) - 1]),
            0 <= trim_end_index(v@) <= v@.len(),
        decreases b,
    {
        b = b - 1;
    }
    slice_vec(v, 0, b)
}

/// First position at or after `i` where `p` occurs in `s`.
pub open spec fn find_first_from(s: Seq<char>, p: Seq<char>, i: int) -> Option<int>
    decreases s.len() + 1 - i,
{
    if i > s.len() || i < 0 {
        None
    } else if occurs_at(s, p, i) {
        Some(i)
    } else {
        find_first_from(s, p, i + 1)
    }
}

/// First position where `p` occurs in `s`.
pub open spec fn first_occurrence(s: Seq<char>, p: Seq<char>) -> Option<int> {
    find_first_from(s, p, 0)
}

/// The search from `from` finds `i` when `p` occurs there and nowhere
/// between.
pub(crate) proof fn lemma_find_first_some(s: Seq<char>, p: Seq<char>, from: int, i: int)
    requires
        0 <= from <= i,
        occurs_at(s, p, i),
        forall|j: int| from <= j < i ==> !occurs_at(s, p, j),
    ensures
        find_first_from(s, p, from) == Some(i),
    decreases i - from,
{
    if from < i {
        lemma_find_first_some(s, p, from + 1, i);
    }
}

/// The search from `from` finds nothing when `p` occurs nowhere after it.
pub(crate) proof fn lemma_find_first_none(s: Seq<char>, p: Seq<char>, from: int)
    requires
        0 <= from,
        forall|j: int| from <= j ==> !occurs_at(s, p, j),
    ensures
        find_first_from(s, p, from) == None::<int>,
    decreases s.len() + 1 - from,
{
    if from <= s.len() {
        lemma_find_first_none(s, p, from + 1);
    }
}

/// First position where `p` occurs in `v`.
pub fn first_occurrence_vec(v: &Vec<char>, p: &Vec<char>) -> (r: Option<usize>)
    ensures
        match r {
            Some(i) => first_occurrence(v@, p@) == Some(i as int),
            None => first_occurrence(v@, p@) == None::<int>,
        },
{
    let r = find_from(v, p, 0);
    proof {
        match r {
            Some(i) => lemma_find_first_some(v@, p@, 0, i as int),
            None => lemma_find_first_none(v@, p@, 0),
        }
    }
    r
}

/// `str::split_once(p)`: the parts before and after the first occurrence.
pub open spec fn split_once(s: Seq<char>, p: Seq<char>) -> Option<(Seq<char>, Seq<char>)> {
    match first_occurrence(s, p) {
        Some(i) => Some((s.subrange(0, i), s.subrange(i + p.len(), s.len() as int))),
        None => None,
    }
}

/// `str::split_once` on a character vector.
pub fn split_once_vec(v: &Vec<char>, p: &Vec<char>) -> (r: Option<(Vec<char>, Vec<char>)>)
    ensures
        match r {
            Some((a, b)) => split_once(v@, p@) == Some((a@, b@)),
            None => split_once(v@, p@) == None::<(Seq<char>, Seq<char>)>,
        },
{
    match first_occurrence_vec(v, p) {
        Some(i) => {
            proof {
                assert(find_first_from(v@, p@, 0) == Some(i as int));
                lemma_find_first_occurs(v@, p@, 0);
                assert(occurs_at(v@, p@, i as int));
                assert(i + p@.len() <= v@.len());
            }
            assert(i + p.len() <= v.len());
            let j: usize = i + p.len();
            let a = slice_vec(v, 0, i);
            let b = slice_vec(v, j, v.len());
            Some((a, b))
        },
        None => None,
    }
}

/// What the search finds is an occurrence, at or after where it started.
pub proof fn lemma_find_first_occurs(s: Seq<char>, p: Seq<char>, from: int)
    ensures
        find_first_from(s, p, from) matches Some(i) ==> occurs_at(s, p, i) && from <= i,
    decreases s.len() + 1 - from,
{
    if from <= s.len() && from >= 0 && !occurs_at(s, p, from) {
        lemma_find_first_occurs(s, p, from + 1);
    }
}

/// `str::split(p)` for a non-empty pattern: the pieces between successive
/// non-overlapping occurrences, left to right.
pub open spec fn split_on(s: Seq<char>, p: Seq<char>) -> Seq<Seq<char>>
    decreases s.len(),
{
    if p.len() == 0 {
        seq![s]
    } else {
        match first_occurrence(s, p) {
            Some(i) => {
                if 0 <= i && i + p.len() <= s.len() {
                    seq![s.subrange(0, i)] + split_on(s.subrange(i + p.len(), s.len() as int), p)
                } else {
                    seq![s]
                }
            },
            None => seq![s],
        }
    }
}

/// `str::split(p)` on a character vector.
pub fn split_on_vec(v: &Vec<char>, p: &Vec<char>) -> (r: Vec<Vec<char>>)
    ensures
        r@.len() == split_on(v@, p@).len(),
        forall|k: int| 0 <= k < r@.len() ==> #[trigger] r@[k]@ == split_on(v@, p@)[k],
    decreases v.len(),
{
    if p.len() == 0 {
        let mut r: Vec<Vec<char>> = Vec::new();
        r.push(v.clone());
        return r;
    }
    match first_occurrence_vec(v, p) {
        Some(i) => {
            proof {
                assert(find_first_from(v@, p@, 0) == Some(i as int));
                lemma_find_first_occurs(v@, p@, 0);
                assert(occurs_at(v@, p@, i as int));
            }
            let a = slice_vec(v, 0, i);
            let rest = slice_vec(v, i + p.len(), v.len());
            let tail = split_on_vec(&rest, p);
            let mut r: Vec<Vec<char>> = Vec::new();
            r.push(a);
            let mut k: usize = 0;
            while k < tail.len()
                invariant
                    k <= tail.len(),
                    r@.len() == k + 1,
                    r@[0]@ == a@,
                    forall|j: int| 0 <= j < k ==> #[trigger] r@[j + 1]@ == tail@[j]@,
                decreases tail.len() - k,
            {
                r.push(tail[k].clone());
                k = k + 1;
            }
            proof {
                let sp = split_on(v@, p@);
                assert(sp == seq![v@.subrange(0, i as int)] + split_on(rest@, p@));
                assert forall|j: int| 0 <= j < r@.len() implies #[trigger] r@[j]@ == sp[j] by {
                    if j > 0 {
                        assert(r@[(j - 1) + 1]@ == tail@[j - 1]@);
                    }
                }
            }
            r
        },
        None => {
            let mut r: Vec<Vec<char>> = Vec::new();
            r.push(v.clone());
            r
        },
    }
}

/// `str::trim` on a string slice, as characters.
pub fn trim_str(s: &str) -> (r: Vec<char>)
    ensures
        r@ == trim(s@),
{
    let v = chars_of(s);
    trim_vec(&v)
}

/// Whether two character vectors are equal.
pub fn vec_eq(a: &Vec<char>, b: &Vec<char>) -> (r: bool)
    ensures
        r == (a@ == b@),
{
    if a.len() != b.len() {
        return false;
    }
    let mut i: usize = 0;
    while i < a.len()
        invariant
            a.len() == b.len(),
            i <= a.len(),
            forall|k: int| 0 <= k < i ==> a@[k] == b@[k],
        decreases a.len() - i,
    {
        if a[i] != b[i] {
            return false;
        }
        i = i + 1;
    }
    assert(a@ =~= b@);
    true
}

/// Whether a character vector equals a string slice.
pub fn vec_eq_str(a: &Vec<char>, s: &str) -> (r: bool)
    ensures
        r == (a@ == s@),
{
    let b = chars_of(s);
    vec_eq(a, &b)
}

/// Whether `s` starts with `p`.
pub open spec fn starts_with(s: Seq<char>, p: Seq<char>) -> bool {
    p.len() <= s.len() && s.subrange(0, p.len() as int) == p
}

/// Whether `s` ends with `p`.
pub open spec fn ends_with(s: Seq<char>, p: Seq<char>) -> bool {
    p.len() <= s.len() && s.subrange(s.len() - p.len(), s.len() as int) == p
}

/// Whether `p` occurs in `s` at position `i`.
pub open spec fn occurs_at(s: Seq<char>, p: Seq<char>, i: int) -> bool {
    0 <= i && i + p.len() <= s.len() && s.subrange(i, i + p.len()) == p
}

/// Whether `p` occurs anywhere in `s`.
pub open spec fn contains_seq(s: Seq<char>, p: Seq<char>) -> bool {
    exists|i: int| occurs_at(s, p, i)
}

/// Whether `p` occurs in `v` at position `i`.
pub fn occurs_at_vec(v: &Vec<char>, p: &Vec<char>, i: usize) -> (r: bool)
    ensures
        r == occurs_at(v@, p@, i as int),
{
    if i > v.len() || p.len() > v.len() - i {
        return false;
    }
    let mut k: usize = 0;
    while k < p.len()
        invariant
            i + p.len() <= v.len(),
            k <= p.len(),
            forall|j: int| 0 <= j < k ==> v@[i + j] == p@[j],
        decreases p.len() - k,
    {
        if v[i + k] != p[k] {
            assert(v@.subrange(i as int, i + p.len())[k as int] != p@[k as int]);
            return false;
        }
        k = k + 1;
    }
    assert(v@.subrange(i as int, i + p.len()) =~= p@);
    true
}

/// Whether `v` starts with `p`.
pub fn starts_with_vec(v: &Vec<char>, p: &Vec<char>) -> (r: bool)
    ensures
        r == starts_with(v@, p@),
{
    occurs_at_vec(v, p, 0)
}

/// Whether `v` ends with `p`.
pub fn ends_with_vec(v: &Vec<char>, p: &Vec<char>) -> (r: bool)
    ensures
        r == ends_with(v@, p@),
{
    if p.len() > v.len() {
        false
    } else {
        occurs_at_vec(v, p, v.len() - p.len())
    }
}

/// First position at or after `from` where `p` occurs in `v`.
pub fn find_from(v: &Vec<char>, p: &Vec<char>, from: usize) -> (r: Option<usize>)
    ensures
        match r {
            Some(i) => from <= i && occurs_at(v@, p@, i as int) && forall|j: int|
                from <= j < i ==> !occurs_at(v@, p@, j),
            None => forall|j: int| from <= j ==> !occurs_at(v@, p@, j),
        },
{
    let mut i = from;
    while i < v.len()
        invariant
            from <= i,
            forall|j: int| from <= j < i ==> !occurs_at(v@, p@, j),
        decreases v.len() - i,
    {
        if occurs_at_vec(v, p, i) {
            return Some(i);
        }
        i = i + 1;
    }
    if i == v.len() && occurs_at_vec(v, p, i) {
        return Some(i);
    }
    None
}

/// Whether `p` occurs anywhere in `v`.
pub fn contains_vec(v: &Vec<char>, p: &Vec<char>) -> (r: bool)
    ensures
        r == contains_seq(v@, p@),
{
    match find_from(v, p, 0) {
        Some(i) => true,
        None => {
            assert forall|j: int| !occurs_at(v@, p@, j) by {
                if j >= 0 {
                }
            }
            false
        },
    }
}

/// Whether a string slice occurs anywhere in `v`.
pub fn contains_str(v: &Vec<char>, p: &str) -> (r: bool)
    ensures
        r == contains_seq(v@, p@),
{
    let pv = chars_of(p);
    contains_vec(v, &pv)
}


/// Maximal runs of characters not satisfying `sep`, in order — what
/// `str::split(sep).filter(|t| !t.is_empty())` yields.
pub open spec fn tokens(s: Seq<char>, sep: spec_fn(char) -> bool) -> Seq<Seq<char>>
    decreases s.len(),
{
    if s.len() == 0 {
        Seq::empty()
    } else {
        let c = s.last();
        let p = s.drop_last();
        let t = tokens(p, sep);
        if sep(c) {
            t
        } else if p.len() > 0 && !sep(p.last()) && t.len() > 0 {
            t.update(t.len() - 1, t.last().push(c))
        } else {
            t.push(seq![c])
        }
    }
}

/// Words separated by whitespace, joined by single spaces — what
/// `split_whitespace().collect::<Vec<_>>().join(" ")` yields.
pub open spec fn collapse_ws(s: Seq<char>) -> Seq<char>
    decreases s.len(),
{
    if s.len() == 0 {
        Seq::empty()
    } else {
        let c = s.last();
        let p = s.drop_last();
        let t = collapse_ws(p);
        if unicode_white_space(c) {
            t
        } else if p.len() > 0 && !unicode_white_space(p.last()) {
            t.push(c)
        } else if t.len() == 0 {
            seq![c]
        } else {
            t.push(' ').push(c)
        }
    }
}

/// Whether `s` has a character that is not whitespace.
pub open spec fn has_non_ws(s: Seq<char>) -> bool {
    exists|j: int| 0 <= j < s.len() && !unicode_white_space(#[trigger] s[j])
}

/// What `collapse_ws` gives: no whitespace at either end, no whitespace
/// inside but single spaces, nothing but spaces and characters of `s`,
/// and nothing at all exactly when `s` is all whitespace.
pub(crate) proof fn lemma_collapse_ws(s: Seq<char>)
    ensures
        collapse_ws(s).len() > 0 ==> !unicode_white_space(collapse_ws(s)[0]) && !unicode_white_space(
            collapse_ws(s).last(),
        ),
        forall|i: int|
            0 <= i < collapse_ws(s).len() ==> collapse_ws(s)[i] == ' ' || !unicode_white_space(
                #[trigger] collapse_ws(s)[i],
            ),
        forall|i: int|
            #![trigger collapse_ws(s)[i]]
            0 <= i < collapse_ws(s).len() - 1 ==> !(collapse_ws(s)[i] == ' ' && collapse_ws(s)[i + 1]
                == ' '),
        forall|i: int|
            0 <= i < collapse_ws(s).len() ==> collapse_ws(s)[i] == ' ' || s.contains(
                #[trigger] collapse_ws(s)[i],
            ),
        collapse_ws(s).len() == 0 <==> !has_non_ws(s),
        s.len() > 0 && !unicode_white_space(s.last()) ==> collapse_ws(s).len() > 0 && collapse_ws(
            s,
        ).last() == s.last(),
    decreases s.len(),
{
    if s.len() > 0 {
        let c = s.last();
        let p = s.drop_last();
        lemma_collapse_ws(p);
        let t = collapse_ws(p);
        let r = collapse_ws(s);
        assert(unicode_white_space(' '));
        assert forall|i: int| 0 <= i < t.len() && t[i] != ' ' implies s.contains(t[i]) by {
            assert(p.contains(t[i]));
            let j = choose|j: int| 0 <= j < p.len() && p[j] == t[i];
            assert(s[j] == p[j]);
        }
        assert(s[s.len() - 1] == c);
        if has_non_ws(p) {
            let j = choose|j: int| 0 <= j < p.len() && !unicode_white_space(#[trigger] p[j]);
            assert(s[j] == p[j]);
        }
        if has_non_ws(s) && unicode_white_space(c) {
            let j = choose|j: int| 0 <= j < s.len() && !unicode_white_space(#[trigger] s[j]);
            assert(p[j] == s[j]);
        }
        if !unicode_white_space(c) {
            if p.len() > 0 && !unicode_white_space(p.last()) {
                assert(r == t.push(c));
                assert(t.len() > 0);
            } else if t.len() == 0 {
                assert(r =~= seq![c]);
            } else {
                assert(r == t.push(' ').push(c));
            }
        }
    } else {
        assert(collapse_ws(s) =~= Seq::<char>::empty());
    }
}

pub open spec fn is_ws_sep(c: char) -> bool {
    unicode_white_space(c)
}

pub open spec fn is_non_alnum_sep(c: char) -> bool {
    !unicode_alphanumeric(c)
}

/// `split_whitespace().join(" ")` on a character vector.
pub fn collapse_ws_vec(v: &Vec<char>) -> (r: Vec<char>)
    ensures
        r@ == collapse_ws(v@),
{
    let mut out: Vec<char> = Vec::new();
    let mut i: usize = 0;
    while i < v.len()
        invariant
            i <= v.len(),
            out@ == collapse_ws(v@.take(i as int)),
        decreases v.len() - i,
    {
        let c = v[i];
        let ghost p = v@.take(i as int);
        assert(v@.take(i + 1).drop_last() =~= p);
        assert(v@.take(i + 1).last() == c);
        if is_whitespace(c) {
        } else if i > 0 && !is_whitespace(v[i - 1]) {
            assert(p.last() == v@[i - 1]);
            out.push(c);
        } else if out.len() == 0 {
            out.push(c);
            assert(out@ =~= seq![c]);
        } else {
            out.push(' ');
            out.push(c);
        }
        i = i + 1;
    }
    assert(v@.take(v.len() as int) =~= v@);
    out
}

/// Whitespace-separated words of a character vector.
pub fn words_vec(v: &Vec<char>) -> (r: Vec<Vec<char>>)
    ensures
        r@.len() == tokens(v@, |c: char| is_ws_sep(c)).len(),
        forall|k: int| 0 <= k < r@.len() ==> #[trigger] r@[k]@ == tokens(v@, |c: char| is_ws_sep(c))[k],
{
    split_tokens(v, true)
}

/// Alphanumeric runs of a character vector.
pub fn alnum_tokens_vec(v: &Vec<char>) -> (r: Vec<Vec<char>>)
    ensures
        r@.len() == tokens(v@, |c: char| is_non_alnum_sep(c)).len(),
        forall|k: int| 0 <= k < r@.len() ==> #[trigger] r@[k]@ == tokens(v@, |c: char| is_non_alnum_sep(c))[k],
{
    split_tokens(v, false)
}

fn is_sep(c: char, on_ws: bool) -> (b: bool)
    ensures
        b == (if on_ws { is_ws_sep(c) } else { is_non_alnum_sep(c) }),
{
    if on_ws {
        is_whitespace(c)
    } else {
        !is_alphanumeric(c)
    }
}

pub open spec fn sep_of(on_ws: bool) -> spec_fn(char) -> bool {
    if on_ws {
        |c: char| is_ws_sep(c)
    } else {
        |c: char| is_non_alnum_sep(c)
    }
}

fn split_tokens(v: &Vec<char>, on_ws: bool) -> (r: Vec<Vec<char>>)
    ensures
        r@.len() == tokens(v@, sep_of(on_ws)).len(),
        forall|k: int| 0 <= k < r@.len() ==> #[trigger] r@[k]@ == tokens(v@, sep_of(on_ws))[k],
{
    let ghost sep = sep_of(on_ws);
    let mut out: Vec<Vec<char>> = Vec::new();
    let mut i: usize = 0;
    while i < v.len()
        invariant
            i <= v.len(),
            sep == sep_of(on_ws),
            out@.len() == tokens(v@.take(i as int), sep).len(),
            forall|k: int| 0 <= k < out@.len() ==> #[trigger] out@[k]@ == tokens(v@.take(i as int), sep)[k],
        decreases v.len() - i,
    {
        let c = v[i];
        let ghost p = v@.take(i as int);
        let ghost t = tokens(p, sep);
        assert(v@.take(i + 1).drop_last() =~= p);
        assert(v@.take(i + 1).last() == c);
        let sc = is_sep(c, on_ws);
        assert(sc == sep(c));
        if sc {
        } else if i > 0 && !is_sep(v[i - 1], on_ws) && out.len() > 0 {
            assert(p.last() == v@[i - 1]);
            let mut last = out.pop().unwrap();
            last.push(c);
            out.push(last);
            assert forall|k: int| 0 <= k < out@.len() implies #[trigger] out@[k]@ == tokens(
                v@.take(i + 1),
                sep,
            )[k] by {
                if k == out@.len() - 1 {
                    assert(out@[k]@ =~= t.last().push(c));
                }
            }
        } else {
            if i > 0 && !is_sep(v[i - 1], on_ws) {
                assert(p.last() == v@[i - 1]);
            }
            let mut nt: Vec<char> = Vec::new();
            nt.push(c);
            assert(nt@ =~= seq![c]);
            out.push(nt);
        }
        i = i + 1;
    }
    assert(v@.take(v.len() as int) =~= v@);
    out
}

} // verus!

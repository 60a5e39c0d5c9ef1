//! Indian-market number formatting: ₹ with Indian digit grouping, crores,
//! dates, times-subscribed, percentages.

use vstd::prelude::*;

use crate::date::Date;
use crate::decimal::{
    checked_div, checked_mul, compare, decimal_product, decimal_quotient, round_dp, rounded_dp,
    mantissa_bound, value_order, Decimal,
};
use crate::text::{chars_of, slice_vec, split_once, split_once_vec, string_from};

verus! {

// ---------------------------------------------------------------------------
// Numerals
// ---------------------------------------------------------------------------

pub open spec fn digit_char(d: nat) -> char {
    (('0' as nat) + d) as char
}

/// Decimal digits of `n`, most significant first; empty for zero.
pub open spec fn nat_digits(n: nat) -> Seq<char>
    decreases n,
{
    if n == 0 {
        Seq::empty()
    } else {
        nat_digits(n / 10).push(digit_char(n % 10))
    }
}

/// Decimal numeral of `n` ("0" for zero).
pub open spec fn nat_text(n: nat) -> Seq<char> {
    if n == 0 { seq!['0'] } else { nat_digits(n) }
}

/// Decimal numeral of a signed integer, as `Display` writes it.
pub open spec fn int_text(n: int) -> Seq<char> {
    if n < 0 { seq!['-'] + nat_text((-n) as nat) } else { nat_text(n as nat) }
}

fn digit_of(d: u128) -> (c: char)
    requires
        d < 10,
    ensures
        c == digit_char(d as nat),
{
    let b: u8 = (48u128 + d) as u8;
    b as char
}

/// Decimal digits of `n`, most significant first; empty for zero.
pub fn digits_of(n: u128) -> (r: Vec<char>)
    ensures
        r@ == nat_digits(n as nat),
{
    let mut rev: Vec<char> = Vec::new();
    let mut m = n;
    while m > 0
        invariant
            nat_digits(n as nat) == nat_digits(m as nat) + rev@.reverse(),
        decreases m,
    {
        let c = digit_of(m % 10);
        proof {
            assert(nat_digits(m as nat) == nat_digits((m / 10) as nat).push(c));
            assert(rev@.push(c).reverse() =~= seq![c] + rev@.reverse());
            assert(nat_digits((m / 10) as nat).push(c) + rev@.reverse() =~= nat_digits(
                (m / 10) as nat,
            ) + (seq![c] + rev@.reverse()));
        }
        rev.push(c);
        m = m / 10;
    }
    assert(nat_digits(0) =~= Seq::<char>::empty());
    let mut r: Vec<char> = Vec::new();
    let mut i = rev.len();
    while i > 0
        invariant
            i <= rev.len(),
            r@ == rev@.reverse().take((rev.len() - i) as int),
        decreases i,
    {
        i = i - 1;
        r.push(rev[i]);
        assert(r@ =~= rev@.reverse().take((rev.len() - i) as int));
    }
    assert(rev@.reverse().take(rev.len() as int) =~= rev@.reverse());
    assert(nat_digits(n as nat) =~= rev@.reverse());
    r
}

/// Decimal numeral of a signed integer.
pub fn int_text_of(n: i64) -> (r: Vec<char>)
    ensures
        r@ == int_text(n as int),
{
    let mag: u128 = if n < 0 { (0i128 - (n as i128)) as u128 } else { n as u128 };
    let mut body = digits_of(mag);
    if mag == 0 {
        body.push('0');
        assert(body@ =~= seq!['0']);
    }
    if n < 0 {
        let mut r: Vec<char> = Vec::new();
        r.push('-');
        let mut i: usize = 0;
        while i < body.len()
            invariant
                i <= body.len(),
                r@ == seq!['-'] + body@.take(i as int),
            decreases body.len() - i,
        {
            r.push(body[i]);
            i = i + 1;
            assert(r@ =~= seq!['-'] + body@.take(i as int));
        }
        assert(body@.take(body.len() as int) =~= body@);
        r
    } else {
        body
    }
}

/// `k` zeros.
pub open spec fn zeros(k: nat) -> Seq<char> {
    Seq::new(k, |i: int| '0')
}

/// The text `rust_decimal` writes for a decimal: the magnitude's digits,
/// left-padded with zeros to at least the scale, a dot before the last
/// `scale` digits (with a `0` before a bare dot), `0` for an empty text,
/// and a leading `-` for negatives.
pub open spec fn decimal_text(d: Decimal) -> Seq<char> {
    let ds = nat_digits(d.mantissa as nat);
    let p = if ds.len() < d.scale { zeros((d.scale - ds.len()) as nat) + ds } else { ds };
    let w = p.len() - d.scale;
    let body = if d.scale == 0 {
        p
    } else {
        (if w == 0 { seq!['0'] } else { p.take(w) }) + seq!['.'] + p.skip(w)
    };
    let shown = if body.len() == 0 { seq!['0'] } else { body };
    if d.negative { seq!['-'] + shown } else { shown }
}

/// Append the characters of `s` to `r`.
pub fn append(r: &mut Vec<char>, s: &Vec<char>)
    ensures
        final(r)@ == old(r)@ + s@,
{
    let ghost start = r@;
    let mut i: usize = 0;
    while i < s.len()
        invariant
            i <= s.len(),
            r@ == start + s@.take(i as int),
        decreases s.len() - i,
    {
        r.push(s[i]);
        i = i + 1;
        assert(r@ =~= start + s@.take(i as int));
    }
    assert(s@.take(s.len() as int) =~= s@);
}

/// The `Display` text of a decimal.
pub fn decimal_text_of(d: Decimal) -> (r: Vec<char>)
    requires
        d.scale <= 28,
    ensures
        r@ == decimal_text(d),
{
    let ds = digits_of(d.mantissa);
    let scale = d.scale as usize;
    let mut p: Vec<char> = Vec::new();
    if ds.len() < scale {
        let mut k: usize = 0;
        while k < scale - ds.len()
            invariant
                k <= scale - ds.len(),
                p@ == zeros(k as nat),
            decreases scale - ds.len() - k,
        {
            p.push('0');
            k = k + 1;
            assert(p@ =~= zeros(k as nat));
        }
    }
    append(&mut p, &ds);
    let w = p.len() - scale;
    let mut body: Vec<char> = Vec::new();
    if scale == 0 {
        append(&mut body, &p);
    } else {
        if w == 0 {
            body.push('0');
        } else {
            let head = slice_vec(&p, 0, w);
            append(&mut body, &head);
        }
        body.push('.');
        let tail = slice_vec(&p, w, p.len());
        append(&mut body, &tail);
        proof {
            let gp = if ds@.len() < d.scale { zeros((d.scale - ds@.len()) as nat) + ds@ } else { ds@ };
            assert(p@ =~= gp);
            assert(p@.take(w as int) =~= p@.subrange(0, w as int));
            assert(p@.skip(w as int) =~= p@.subrange(w as int, p@.len() as int));
            if w == 0 {
                assert(body@ =~= seq!['0'] + seq!['.'] + p@.skip(w as int));
            } else {
                assert(body@ =~= p@.take(w as int) + seq!['.'] + p@.skip(w as int));
            }
        }
    }
    if body.len() == 0 {
        body.push('0');
    }
    let mut r: Vec<char> = Vec::new();
    if d.negative {
        r.push('-');
    }
    append(&mut r, &body);
    proof {
        let gp = if ds@.len() < d.scale { zeros((d.scale - ds@.len()) as nat) + ds@ } else { ds@ };
        assert(p@ =~= gp);
        if !d.negative {
            assert(r@ =~= body@);
        } else {
            assert(r@ =~= seq!['-'] + body@);
        }
    }
    r
}

// ---------------------------------------------------------------------------
// Indian digit grouping
// ---------------------------------------------------------------------------

/// Pairs from the right: "1234567" → "12,34,56,7"-style grouping by two.
pub open spec fn group_by_two(s: Seq<char>) -> Seq<char>
    decreases s.len(),
{
    if s.len() <= 2 {
        s
    } else {
        group_by_two(s.subrange(0, s.len() - 2)) + seq![','] + s.subrange(
            s.len() - 2,
            s.len() as int,
        )
    }
}

/// Grouping of a run of digits: the last three, and pairs before them,
/// comma separated — 12345678 → "1,23,45,678".
pub open spec fn digits_grouped(s: Seq<char>) -> Seq<char> {
    if s.len() <= 3 {
        s
    } else {
        group_by_two(s.subrange(0, s.len() - 3)) + seq![','] + s.subrange(
            s.len() - 3,
            s.len() as int,
        )
    }
}

/// Indian grouping of a number's text: the digits grouped as
/// `digits_grouped` does, a leading minus sign kept out of the groups —
/// -12345 → "-12,345".
pub open spec fn indian_grouped(s: Seq<char>) -> Seq<char> {
    if s.len() > 0 && s[0] == '-' {
        seq!['-'] + digits_grouped(s.drop_first())
    } else {
        digits_grouped(s)
    }
}

fn group_by_two_vec(s: &Vec<char>) -> (r: Vec<char>)
    ensures
        r@ == group_by_two(s@),
    decreases s.len(),
{
    if s.len() <= 2 {
        return s.clone();
    }
    let head = slice_vec(s, 0, s.len() - 2);
    let mut r = group_by_two_vec(&head);
    r.push(',');
    let tail = slice_vec(s, s.len() - 2, s.len());
    append(&mut r, &tail);
    r
}

fn digits_grouping_chars(s: &Vec<char>) -> (r: Vec<char>)
    ensures
        r@ == digits_grouped(s@),
{
    if s.len() <= 3 {
        return s.clone();
    }
    let head = slice_vec(s, 0, s.len() - 3);
    let mut r = group_by_two_vec(&head);
    r.push(',');
    let tail = slice_vec(s, s.len() - 3, s.len());
    append(&mut r, &tail);
    r
}

fn indian_grouping_chars(s: &Vec<char>) -> (r: Vec<char>)
    ensures
        r@ == indian_grouped(s@),
{
    if s.len() > 0 && s[0] == '-' {
        let rest = slice_vec(s, 1, s.len());
        assert(rest@ =~= s@.drop_first());
        let g = digits_grouping_chars(&rest);
        let mut r: Vec<char> = Vec::new();
        r.push('-');
        append(&mut r, &g);
        assert(r@ =~= seq!['-'] + g@);
        r
    } else {
        digits_grouping_chars(s)
    }
}

/// Indian grouping: 12345678 → "1,23,45,678", -12345 → "-12,345".
pub fn indian_grouping(digits: &str) -> (r: String)
    ensures
        r@ == indian_grouped(digits@),
{
    let v = chars_of(digits);
    let g = indian_grouping_chars(&v);
    string_from(&g)
}

/// Integer with Indian grouping.
pub fn integer(n: i64) -> (r: String)
    ensures
        r@ == indian_grouped(int_text(n as int)),
{
    let t = int_text_of(n);
    let g = indian_grouping_chars(&t);
    string_from(&g)
}

/// Shares count like "15,72,33,715".
pub fn shares(n: i64) -> (r: String)
    ensures
        r@ == indian_grouped(int_text(n as int)),
{
    integer(n)
}

// ---------------------------------------------------------------------------
// Amounts
// ---------------------------------------------------------------------------

/// "₹" and the Indian-grouped amount rounded to two decimals; the
/// fraction is dropped when it is "00".
pub open spec fn rupees_text(d: Decimal) -> Seq<char> {
    let s = decimal_text(rounded_dp(d, 2));
    let parts = match split_once(s, seq!['.']) {
        Some((i, f)) => (i, Some(f)),
        None => (s, None),
    };
    let grouped = indian_grouped(parts.0);
    match parts.1 {
        Some(f) => if f != seq!['0', '0'] {
            seq!['₹'] + grouped + seq!['.'] + f
        } else {
            seq!['₹'] + grouped
        },
        None => seq!['₹'] + grouped,
    }
}

/// ₹ with Indian grouping, up to 2 decimals (trimmed).
pub fn rupees(d: Decimal) -> (r: String)
    requires
        d.wf(),
    ensures
        r@ == rupees_text(d),
{
    let v = rupees_chars(d);
    string_from(&v)
}

fn rupees_chars(d: Decimal) -> (r: Vec<char>)
    requires
        d.wf(),
    ensures
        r@ == rupees_text(d),
{
    let rounded = round_dp(d, 2);
    let s = decimal_text_of(rounded);
    let mut dot: Vec<char> = Vec::new();
    dot.push('.');
    assert(dot@ =~= seq!['.']);
    let mut r: Vec<char> = Vec::new();
    r.push('₹');
    match split_once_vec(&s, &dot) {
        Some((i, f)) => {
            let g = indian_grouping_chars(&i);
            append(&mut r, &g);
            let keep = !(f.len() == 2 && f[0] == '0' && f[1] == '0');
            assert(keep == (f@ != seq!['0', '0'])) by {
                if f@.len() == 2 && f@[0] == '0' && f@[1] == '0' {
                    assert(f@ =~= seq!['0', '0']);
                }
            }
            if keep {
                r.push('.');
                append(&mut r, &f);
            }
        },
        None => {
            let g = indian_grouping_chars(&s);
            append(&mut r, &g);
        },
    }
    r
}

/// Amount in ₹ crore: "₹3,066.89 Cr".
pub fn crores(d: Decimal) -> (r: String)
    requires
        d.wf(),
    ensures
        r@ == rupees_text(d) + seq![' ', 'C', 'r'],
{
    let mut v = rupees_chars(d);
    v.push(' ');
    v.push('C');
    v.push('r');
    string_from(&v)
}

/// Times subscribed: the value to two decimals and "×".
pub fn times(d: Decimal) -> (r: String)
    requires
        d.wf(),
    ensures
        r@ == decimal_text(rounded_dp(d, 2)) + seq!['×'],
{
    let rounded = round_dp(d, 2);
    let mut v = decimal_text_of(rounded);
    v.push('×');
    string_from(&v)
}

/// A signed percentage: "+" for values at or above zero, two decimals, "%".
pub open spec fn signed_pct_text(d: Decimal) -> Seq<char> {
    let t = decimal_text(rounded_dp(d, 2));
    if value_order(d, Decimal { negative: false, mantissa: 0, scale: 0 }) >= 0 {
        seq!['+'] + t + seq!['%']
    } else {
        t + seq!['%']
    }
}

/// Signed percent with sign: "+8.5%".
pub fn signed_pct(d: Decimal) -> (r: String)
    requires
        d.wf(),
    ensures
        r@ == signed_pct_text(d),
{
    let zero = Decimal { negative: false, mantissa: 0, scale: 0 };
    let rounded = round_dp(d, 2);
    let t = decimal_text_of(rounded);
    let mut v: Vec<char> = Vec::new();
    let nonneg = compare(d, zero) >= 0;
    if nonneg {
        v.push('+');
    }
    append(&mut v, &t);
    v.push('%');
    proof {
        if nonneg {
            assert(v@ =~= seq!['+'] + t@ + seq!['%']);
        } else {
            assert(v@ =~= t@ + seq!['%']);
        }
    }
    string_from(&v)
}

/// Date → "5 Aug 2026".
pub open spec fn month_abbrev(m: int) -> Seq<char> {
    if m == 1 {
        seq!['J', 'a', 'n']
    } else if m == 2 {
        seq!['F', 'e', 'b']
    } else if m == 3 {
        seq!['M', 'a', 'r']
    } else if m == 4 {
        seq!['A', 'p', 'r']
    } else if m == 5 {
        seq!['M', 'a', 'y']
    } else if m == 6 {
        seq!['J', 'u', 'n']
    } else if m == 7 {
        seq!['J', 'u', 'l']
    } else if m == 8 {
        seq!['A', 'u', 'g']
    } else if m == 9 {
        seq!['S', 'e', 'p']
    } else if m == 10 {
        seq!['O', 'c', 't']
    } else if m == 11 {
        seq!['N', 'o', 'v']
    } else {
        seq!['D', 'e', 'c']
    }
}

pub open spec fn date_text(d: Date) -> Seq<char> {
    int_text(d.day as int) + seq![' '] + month_abbrev(d.month as int) + seq![' '] + int_text(
        d.year as int,
    )
}

/// Date → "5 Aug 2026".
pub fn date(d: Date) -> (r: String)
    requires
        d.wf(),
    ensures
        r@ == date_text(d),
{
    let mut v = int_text_of(d.day as i64);
    v.push(' ');
    let m = d.month;
    let (a, b, c) = if m == 1 {
        ('J', 'a', 'n')
    } else if m == 2 {
        ('F', 'e', 'b')
    } else if m == 3 {
        ('M', 'a', 'r')
    } else if m == 4 {
        ('A', 'p', 'r')
    } else if m == 5 {
        ('M', 'a', 'y')
    } else if m == 6 {
        ('J', 'u', 'n')
    } else if m == 7 {
        ('J', 'u', 'l')
    } else if m == 8 {
        ('A', 'u', 'g')
    } else if m == 9 {
        ('S', 'e', 'p')
    } else if m == 10 {
        ('O', 'c', 't')
    } else if m == 11 {
        ('N', 'o', 'v')
    } else {
        ('D', 'e', 'c')
    };
    v.push(a);
    v.push(b);
    v.push(c);
    v.push(' ');
    let y = int_text_of(d.year as i64);
    append(&mut v, &y);
    assert(v@ =~= date_text(d));
    string_from(&v)
}

// ---------------------------------------------------------------------------
// Percent change
// ---------------------------------------------------------------------------

/// What `rust_decimal::Decimal::checked_sub(a, b)` gives.
pub uninterp spec fn decimal_difference(a: Decimal, b: Decimal) -> Option<Decimal>;

/// The exact difference of two decimals of the same scale, at that scale
/// (zero carries no sign).
pub open spec fn exact_difference(a: Decimal, b: Decimal) -> Decimal {
    let v = a.signed() - b.signed();
    Decimal { negative: v < 0, mantissa: (if v < 0 { -v } else { v }) as u128, scale: a.scale }
}

/// `rust_decimal::Decimal::checked_sub`: the difference, `None` on
/// overflow; exact, at the common scale, when both have the same scale
/// and the difference's magnitude is below 2^96.
#[verifier::external_body]
pub(crate) fn checked_sub(a: Decimal, b: Decimal) -> (r: Option<Decimal>)
    requires
        a.wf(),
        b.wf(),
    ensures
        r == decimal_difference(a, b),
        a.scale == b.scale && -mantissa_bound() < a.signed() - b.signed() < mantissa_bound() ==> r
            == Some(exact_difference(a, b)),
        r matches Some(d) ==> d.wf(),
{
    let to = |d: Decimal| {
        rust_decimal::Decimal::from_parts(
            d.mantissa as u32,
            (d.mantissa >> 32) as u32,
            (d.mantissa >> 64) as u32,
            d.negative,
            d.scale,
        )
    };
    to(a).checked_sub(to(b)).map(
        |d| Decimal { negative: d.is_sign_negative(), mantissa: d.mantissa().unsigned_abs(), scale: d.scale() },
    )
}

/// The relative change between two prices, `(to - from) / from` (not yet
/// scaled by 100), as `rust_decimal` computes it; `None` when `from` is
/// zero. Meaningful where `pct_change_fits` holds.
pub open spec fn pct_change_of(from: Decimal, to: Decimal) -> Option<Decimal> {
    if from.mantissa == 0 {
        None
    } else {
        match decimal_difference(to, from) {
            Some(diff) => decimal_quotient(diff, from),
            None => None,
        }
    }
}

/// Whether no step of the percent change overflows (always when `from` is
/// zero, as nothing is computed then).
pub open spec fn pct_change_fits(from: Decimal, to: Decimal) -> bool {
    from.mantissa == 0 || pct_change_of(from, to) is Some
}

/// Percent change between two prices, as Decimal (not yet scaled by
/// 100); `None` when `from` is zero.
pub fn pct_change(from: Decimal, to: Decimal) -> (r: Option<Decimal>)
    requires
        from.wf(),
        to.wf(),
        pct_change_fits(from, to),
    ensures
        r == pct_change_of(from, to),
        r is None <==> from.mantissa == 0,
        r matches Some(d) ==> d.wf(),
        from.mantissa != 0 && to.scale == from.scale && -mantissa_bound() < to.signed()
            - from.signed() < mantissa_bound() ==> r == decimal_quotient(
            exact_difference(to, from),
            from,
        ),
{
    if from.mantissa == 0 {
        return None;
    }
    let diff = checked_sub(to, from).unwrap();
    checked_div(diff, from)
}

/// Whether the percent change between two prices can be computed without
/// overflow; `pct_change` may be called exactly when it can.
pub fn pct_change_computable(from: Decimal, to: Decimal) -> (r: bool)
    requires
        from.wf(),
        to.wf(),
    ensures
        r == pct_change_fits(from, to),
{
    if from.mantissa == 0 {
        return true;
    }
    match checked_sub(to, from) {
        Some(diff) => checked_div(diff, from).is_some(),
        None => false,
    }
}

// ---------------------------------------------------------------------------
// ISO dates
// ---------------------------------------------------------------------------

/// The last four decimal digits of `n`, zero-padded.
pub open spec fn pad4(n: int) -> Seq<char> {
    seq![
        digit_char(((n / 1000) % 10) as nat),
        digit_char(((n / 100) % 10) as nat),
        digit_char(((n / 10) % 10) as nat),
        digit_char((n % 10) as nat),
    ]
}

/// The last two decimal digits of `n`, zero-padded.
pub open spec fn pad2(n: int) -> Seq<char> {
    seq![digit_char(((n / 10) % 10) as nat), digit_char((n % 10) as nat)]
}

/// How `jiff` writes a civil date: "YYYY-MM-DD", a negative year as "-00"
/// followed by its four digits.
pub open spec fn iso_date_text(d: Date) -> Seq<char> {
    let y = d.year as int;
    let year = if y < 0 { seq!['-', '0', '0'] + pad4(-y) } else { pad4(y) };
    year + seq!['-'] + pad2(d.month as int) + seq!['-'] + pad2(d.day as int)
}

fn digit_at(n: u32, div: u32) -> (c: char)
    requires
        div > 0,
    ensures
        c == digit_char(((n as int / div as int) % 10) as nat),
{
    let d: u32 = (n / div) % 10;
    let b: u8 = (48u32 + d) as u8;
    b as char
}

/// A civil date as `jiff` writes it: "2026-08-05".
pub fn iso_date(d: Date) -> (r: String)
    requires
        d.wf(),
    ensures
        r@ == iso_date_text(d),
{
    let mut v: Vec<char> = Vec::new();
    let y: i32 = d.year as i32;
    let a: u32 = if y < 0 {
        v.push('-');
        v.push('0');
        v.push('0');
        (0 - y) as u32
    } else {
        y as u32
    };
    v.push(digit_at(a, 1000));
    v.push(digit_at(a, 100));
    v.push(digit_at(a, 10));
    v.push(digit_at(a, 1));
    v.push('-');
    let m: u32 = d.month as u32;
    v.push(digit_at(m, 10));
    v.push(digit_at(m, 1));
    v.push('-');
    let day: u32 = d.day as u32;
    v.push(digit_at(day, 10));
    v.push(digit_at(day, 1));
    assert(v@ =~= iso_date_text(d));
    string_from(&v)
}

} // verus!

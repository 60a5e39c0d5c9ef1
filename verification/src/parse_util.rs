//! Tolerant parsing helpers shared by the scrapers: Indian number formats,
//! NSE/Chittorgarh/IPO Watch date formats, rupee amounts.

use vstd::prelude::*;

use crate::date::{date_new, ymd, Date};
use crate::decimal::{
    checked_mul, decimal_from_str_radix, decimal_product, digits_value, int_decimal, parse_decimal,
    Decimal,
};
use crate::text::{
    alnum_tokens_vec, chars_of, contains_seq, contains_str, is_digit, is_digit_char, is_non_alnum_sep,
    is_ws_sep, lower_seq, lower_vec, slice_vec, split_on, split_on_vec, split_once, split_once_vec,
    starts_with, starts_with_vec, string_from, tokens, trim, trim_str, trim_vec, words_vec,
};

verus! {

// ---------------------------------------------------------------------------
// Digit runs
// ---------------------------------------------------------------------------

/// Index of the first ASCII digit of `t` at or after `i`.
pub open spec fn first_digit_from(t: Seq<char>, i: int) -> Option<int>
    decreases t.len() - i,
{
    if i < 0 || i >= t.len() {
        None
    } else if is_digit(t[i]) {
        Some(i)
    } else {
        first_digit_from(t, i + 1)
    }
}

/// Whether `c` may continue a number run (`dots` admits `.` too).
pub open spec fn number_char(c: char, dots: bool) -> bool {
    is_digit(c) || c == ',' || (dots && c == '.')
}

/// End of the run of number characters of `t` starting at `i`.
pub open spec fn run_end(t: Seq<char>, i: int, dots: bool) -> int
    decreases t.len() - i,
{
    if i < 0 || i >= t.len() || !number_char(t[i], dots) {
        i
    } else {
        run_end(t, i + 1, dots)
    }
}

/// `s` without its commas.
pub open spec fn drop_commas(s: Seq<char>) -> Seq<char>
    decreases s.len(),
{
    if s.len() == 0 {
        s
    } else if s.last() == ',' {
        drop_commas(s.drop_last())
    } else {
        drop_commas(s.drop_last()).push(s.last())
    }
}

/// The leading number run of `t` (from its first digit), commas removed;
/// `None` when `t` has no digit.
pub open spec fn leading_number(t: Seq<char>, dots: bool) -> Option<(Seq<char>, int)> {
    match first_digit_from(t, 0) {
        Some(a) => Some((drop_commas(t.subrange(a, run_end(t, a, dots))), run_end(t, a, dots))),
        None => None,
    }
}

fn first_digit_vec(t: &Vec<char>) -> (r: Option<usize>)
    ensures
        match r {
            Some(i) => first_digit_from(t@, 0) == Some(i as int) && i < t.len(),
            None => first_digit_from(t@, 0) == None::<int>,
        },
{
    let mut i: usize = 0;
    while i < t.len()
        invariant
            i <= t.len(),
            first_digit_from(t@, 0) == first_digit_from(t@, i as int),
        decreases t.len() - i,
    {
        if is_digit_char(t[i]) {
            return Some(i);
        }
        i = i + 1;
    }
    None
}

fn run_end_vec(t: &Vec<char>, start: usize, dots: bool) -> (r: usize)
    requires
        start <= t.len(),
    ensures
        r as int == run_end(t@, start as int, dots),
        start <= r <= t.len(),
{
    let mut i = start;
    while i < t.len() && (is_digit_char(t[i]) || t[i] == ',' || (dots && t[i] == '.'))
        invariant
            start <= i <= t.len(),
            run_end(t@, start as int, dots) == run_end(t@, i as int, dots),
        decreases t.len() - i,
    {
        i = i + 1;
    }
    i
}

fn drop_commas_vec(v: &Vec<char>) -> (r: Vec<char>)
    ensures
        r@ == drop_commas(v@),
{
    let mut r: Vec<char> = Vec::new();
    let mut i: usize = 0;
    while i < v.len()
        invariant
            i <= v.len(),
            r@ == drop_commas(v@.take(i as int)),
        decreases v.len() - i,
    {
        assert(v@.take(i + 1).drop_last() =~= v@.take(i as int));
        if v[i] != ',' {
            r.push(v[i]);
        }
        i = i + 1;
    }
    assert(v@.take(v.len() as int) =~= v@);
    r
}

fn leading_number_vec(t: &Vec<char>, dots: bool) -> (r: Option<(Vec<char>, usize)>)
    ensures
        match r {
            Some((n, e)) => leading_number(t@, dots) == Some((n@, e as int)) && e <= t.len(),
            None => leading_number(t@, dots) == None::<(Seq<char>, int)>,
        },
{
    match first_digit_vec(t) {
        Some(a) => {
            let e = run_end_vec(t, a, dots);
            let run = slice_vec(t, a, e);
            let n = drop_commas_vec(&run);
            Some((n, e))
        },
        None => None,
    }
}

/// Value of a run of ASCII digits that fits in `max`; `None` when the run is
/// empty, holds another character, or is larger.
pub open spec fn small_uint(s: Seq<char>, max: int) -> Option<int> {
    if s.len() > 0 && (forall|i: int| 0 <= i < s.len() ==> is_digit(#[trigger] s[i]))
        && digits_value(s) <= max {
        Some(digits_value(s) as int)
    } else {
        None
    }
}

/// `str::parse` of an unsigned-digit token into an integer type whose
/// largest value is `max` (`i8`, `i16`, `i64`).
pub fn parse_uint(s: &Vec<char>, max: u64) -> (r: Option<u64>)
    requires
        9 <= max,
    ensures
        match r {
            Some(v) => small_uint(s@, max as int) == Some(v as int),
            None => small_uint(s@, max as int) == None::<int>,
        },
{
    if s.len() == 0 {
        return None;
    }
    let mut acc: u64 = 0;
    let mut i: usize = 0;
    while i < s.len()
        invariant
            i <= s.len(),
            acc as int == digits_value(s@.take(i as int)),
            acc <= max,
            9 <= max,
            forall|k: int| 0 <= k < i ==> is_digit(#[trigger] s@[k]),
        decreases s.len() - i,
    {
        let c = s[i];
        assert(s@.take(i + 1).drop_last() =~= s@.take(i as int));
        if !is_digit_char(c) {
            return None;
        }
        let d: u64 = (c as u32 - '0' as u32) as u64;
        assert(s@.take(i + 1).last() == c);
        assert(digits_value(s@.take(i + 1)) == acc * 10 + d);
        if acc > (max - d) / 10 {
            proof {
                assert(acc * 10 + d > max) by (nonlinear_arith)
                    requires
                        acc > (max - d) / 10,
                        d <= 9,
                        max >= 9,
                ;
                if forall|k: int| 0 <= k < s@.len() ==> is_digit(#[trigger] s@[k]) {
                    lemma_digits_value_prefix_mono(s@, i as int + 1);
                }
            }
            return None;
        }
        assert(acc * 10 + d <= max) by (nonlinear_arith)
            requires
                acc <= (max - d) / 10,
                d <= 9,
                max >= 9,
        ;
        acc = acc * 10 + d;
        i = i + 1;
    }
    assert(s@.take(s.len() as int) =~= s@);
    Some(acc)
}

/// The value of a digit string never falls below the value of its prefixes.
proof fn lemma_digits_value_prefix_mono(s: Seq<char>, k: int)
    requires
        0 <= k <= s.len(),
        forall|i: int| 0 <= i < s.len() ==> is_digit(#[trigger] s[i]),
    ensures
        digits_value(s) >= digits_value(s.take(k)),
    decreases s.len() - k,
{
    if k < s.len() {
        lemma_digits_value_prefix_mono(s, k + 1);
        assert(s.take(k + 1).drop_last() =~= s.take(k));
        assert(s.take(k + 1).last() != '.');
    } else {
        assert(s.take(k) =~= s);
    }
}

// ---------------------------------------------------------------------------
// Integers
// ---------------------------------------------------------------------------

/// The integer a cell leads with: from its first digit, digits and commas
/// (Indian grouping) up to the first other character, read as an `i64`.
pub open spec fn int_in(s: Seq<char>) -> Option<i64> {
    match leading_number(trim(s), false) {
        Some((n, _)) => match small_uint(n, 0x7fff_ffff_ffff_ffff) {
            Some(v) => Some(v as i64),
            None => None,
        },
        None => None,
    }
}

/// Parse an integer with Indian digit grouping from the leading number of a
/// cell: "15,72,33,715 shares (agg. up to ₹9,275 Cr)" → 157233715.
/// Trailing amounts ("₹9,275") are ignored.
pub fn parse_int(s: &str) -> (r: Option<i64>)
    ensures
        r == int_in(s@),
{
    let v = chars_of(s);
    parse_int_chars(&v)
}

/// `parse_int` on characters.
pub fn parse_int_chars(s: &Vec<char>) -> (r: Option<i64>)
    ensures
        r == int_in(s@),
{
    let t = trim_vec(s);
    match leading_number_vec(&t, false) {
        Some((n, _)) => match parse_uint(&n, 0x7fff_ffff_ffff_ffff) {
            Some(v) => Some(v as i64),
            None => None,
        },
        None => None,
    }
}

// ---------------------------------------------------------------------------
// Rupee amounts
// ---------------------------------------------------------------------------

/// `s` with each `₹` written as `Rs.`.
pub open spec fn replace_rupee_sign(s: Seq<char>) -> Seq<char>
    decreases s.len(),
{
    if s.len() == 0 {
        s
    } else if s.last() == '₹' {
        replace_rupee_sign(s.drop_last()) + seq!['R', 's', '.']
    } else {
        replace_rupee_sign(s.drop_last()).push(s.last())
    }
}

/// The unit word after a rupee amount: the first word of `rest` (lower
/// case), 1 for crores (`cr`, `crore`, ...), 2 for lakhs (`l`, `lakh`, ...),
/// 0 for anything else.
pub open spec fn amount_unit(rest: Seq<char>) -> int {
    let tk = alnum_tokens(rest);
    if tk.len() == 0 {
        0
    } else if crate::text::starts_with(tk[0], "cr"@) {
        1
    } else if tk[0] == "l"@ || crate::text::starts_with(tk[0], "lakh"@) {
        2
    } else {
        0
    }
}

/// The amount a rupee cell states: its first number (digits, commas, dots),
/// read as a decimal, times 10^7 when the word after it is a crore unit,
/// times 10^5 when it is a lakh unit. `None` when there is no number, it
/// does not parse, or the product overflows.
pub open spec fn rupees_in(s: Seq<char>) -> Option<Decimal> {
    let t = trim(replace_rupee_sign(s));
    match leading_number(t, true) {
        Some((num, e)) => match decimal_from_str_radix(num) {
            Some(v) => {
                let rest = lower_seq(t.subrange(e, t.len() as int));
                if amount_unit(rest) == 1 {
                    decimal_product(v, int_decimal(10_000_000))
                } else if amount_unit(rest) == 2 {
                    decimal_product(v, int_decimal(100_000))
                } else {
                    Some(v)
                }
            },
            None => None,
        },
        None => None,
    }
}

fn replace_rupee_sign_vec(v: &Vec<char>) -> (r: Vec<char>)
    ensures
        r@ == replace_rupee_sign(v@),
{
    let mut r: Vec<char> = Vec::new();
    let mut i: usize = 0;
    while i < v.len()
        invariant
            i <= v.len(),
            r@ == replace_rupee_sign(v@.take(i as int)),
        decreases v.len() - i,
    {
        assert(v@.take(i + 1).drop_last() =~= v@.take(i as int));
        if v[i] == '₹' {
            r.push('R');
            r.push('s');
            r.push('.');
            assert(r@ =~= replace_rupee_sign(v@.take(i as int)) + seq!['R', 's', '.']);
        } else {
            r.push(v[i]);
        }
        i = i + 1;
    }
    assert(v@.take(v.len() as int) =~= v@);
    r
}

fn amount_unit_of(rest: &Vec<char>) -> (r: u8)
    ensures
        r as int == amount_unit(rest@),
{
    let tk = alnum_tokens_vec(rest);
    let ghost g = alnum_tokens(rest@);
    if tk.len() == 0 {
        return 0;
    }
    assert(tk@[0]@ == g[0]);
    if starts_with_vec(&tk[0], &chars_of("cr")) {
        1
    } else if crate::text::vec_eq_str(&tk[0], "l") || starts_with_vec(&tk[0], &chars_of("lakh")) {
        2
    } else {
        0
    }
}

/// Parse "Rs. 50/- to Rs. 53/-", "₹560 to ₹590", "₹3,066.89 Cr." into a
/// Decimal. Handles optional "Cr." / "L" / "Lakh" multipliers.
pub fn parse_rupees(s: &str) -> (r: Option<Decimal>)
    ensures
        r == rupees_in(s@),
        r matches Some(d) ==> d.wf(),
{
    let v = chars_of(s);
    parse_rupees_chars(&v)
}

/// `parse_rupees` on characters.
pub fn parse_rupees_chars(s: &Vec<char>) -> (r: Option<Decimal>)
    ensures
        r == rupees_in(s@),
        r matches Some(d) ==> d.wf(),
{
    let replaced = replace_rupee_sign_vec(s);
    let t = trim_vec(&replaced);
    match leading_number_vec(&t, true) {
        Some((num, e)) => {
            let num_text = string_from(&num);
            match parse_decimal(num_text.as_str()) {
                Some(v) => {
                    let tail = slice_vec(&t, e, t.len());
                    let rest = lower_vec(&tail);
                    let unit = amount_unit_of(&rest);
                    if unit == 1 {
                        checked_mul(v, crate::decimal::from_u64(10_000_000))
                    } else if unit == 2 {
                        checked_mul(v, crate::decimal::from_u64(100_000))
                    } else {
                        Some(v)
                    }
                },
                None => None,
            }
        },
        None => None,
    }
}

// ---------------------------------------------------------------------------
// Months and dates
// ---------------------------------------------------------------------------

/// The three-letter prefix of month `i` (0 = January).
pub open spec fn month_prefix(i: int) -> Seq<char> {
    if i == 0 {
        seq!['j', 'a', 'n']
    } else if i == 1 {
        seq!['f', 'e', 'b']
    } else if i == 2 {
        seq!['m', 'a', 'r']
    } else if i == 3 {
        seq!['a', 'p', 'r']
    } else if i == 4 {
        seq!['m', 'a', 'y']
    } else if i == 5 {
        seq!['j', 'u', 'n']
    } else if i == 6 {
        seq!['j', 'u', 'l']
    } else if i == 7 {
        seq!['a', 'u', 'g']
    } else if i == 8 {
        seq!['s', 'e', 'p']
    } else if i == 9 {
        seq!['o', 'c', 't']
    } else if i == 10 {
        seq!['n', 'o', 'v']
    } else {
        seq!['d', 'e', 'c']
    }
}

pub open spec fn month_from(n: Seq<char>, i: int) -> Option<int>
    decreases 12 - i,
{
    if i < 0 || i >= 12 {
        None
    } else if starts_with(n, month_prefix(i)) {
        Some(i + 1)
    } else {
        month_from(n, i + 1)
    }
}

/// The month (1-12) whose three-letter prefix a name starts with, without
/// case; the first match in calendar order.
pub open spec fn month_of(name: Seq<char>) -> Option<int> {
    month_from(lower_seq(name), 0)
}

fn month_prefix_vec(i: usize) -> (r: Vec<char>)
    requires
        i < 12,
    ensures
        r@ == month_prefix(i as int),
{
    let (a, b, c) = if i == 0 {
        ('j', 'a', 'n')
    } else if i == 1 {
        ('f', 'e', 'b')
    } else if i == 2 {
        ('m', 'a', 'r')
    } else if i == 3 {
        ('a', 'p', 'r')
    } else if i == 4 {
        ('m', 'a', 'y')
    } else if i == 5 {
        ('j', 'u', 'n')
    } else if i == 6 {
        ('j', 'u', 'l')
    } else if i == 7 {
        ('a', 'u', 'g')
    } else if i == 8 {
        ('s', 'e', 'p')
    } else if i == 9 {
        ('o', 'c', 't')
    } else if i == 10 {
        ('n', 'o', 'v')
    } else {
        ('d', 'e', 'c')
    };
    let mut r: Vec<char> = Vec::new();
    r.push(a);
    r.push(b);
    r.push(c);
    assert(r@ =~= month_prefix(i as int));
    r
}

/// Month number (1-12) of a month name or abbreviation.
pub fn month_index(name: &Vec<char>) -> (r: Option<u8>)
    ensures
        match r {
            Some(m) => month_of(name@) == Some(m as int) && 1 <= m <= 12,
            None => month_of(name@) == None::<int>,
        },
{
    let n = lower_vec(name);
    let mut i: usize = 0;
    while i < 12
        invariant
            i <= 12,
            n@ == lower_seq(name@),
            month_from(n@, 0) == month_from(n@, i as int),
        decreases 12 - i,
    {
        let p = month_prefix_vec(i);
        if starts_with_vec(&n, &p) {
            return Some((i + 1) as u8);
        }
        i = i + 1;
    }
    None
}

/// Whether `w` names a day of the week, abbreviated ("Wed") or in full,
/// in any case.
pub open spec fn weekday_name(w: Seq<char>) -> bool {
    let l = lower_seq(w);
    l == "mon"@ || l == "tue"@ || l == "wed"@ || l == "thu"@ || l == "fri"@ || l == "sat"@ || l == "sun"@ || l == "monday"@ || l == "tuesday"@ || l == "wednesday"@ || l == "thursday"@ || l == "friday"@ || l == "saturday"@ || l == "sunday"@
}

/// `s` trimmed, without a leading weekday: when the text before the first
/// comma names a day of the week ("Wed, Aug 5, 2026"), the trimmed part
/// after that comma; otherwise the whole trimmed text ("Aug 5, 2026").
pub open spec fn after_weekday(s: Seq<char>) -> Seq<char> {
    let t = trim(s);
    match split_once(t, seq![',']) {
        Some((w, rest)) => if weekday_name(trim(w)) {
            trim(rest)
        } else {
            t
        },
        None => t,
    }
}

/// The alphanumeric tokens of `s`.
pub open spec fn alnum_tokens(s: Seq<char>) -> Seq<Seq<char>> {
    tokens(s, |c: char| is_non_alnum_sep(c))
}

/// A day-month-year date: "05-Aug-2026", "5 Aug 2026" or (month first)
/// "Wed, Aug 5, 2026"; the first three tokens decide.
pub open spec fn day_month_year(s: Seq<char>) -> Option<Date> {
    let tk = alnum_tokens(after_weekday(s));
    if tk.len() < 3 {
        None
    } else {
        match small_uint(tk[0], 127) {
            Some(day) => match month_of(tk[1]) {
                Some(m) => match small_uint(tk[2], 32767) {
                    Some(y) => ymd(y, m, day),
                    None => None,
                },
                None => None,
            },
            None => match month_of(tk[0]) {
                Some(m) => match small_uint(tk[1], 127) {
                    Some(day) => match small_uint(tk[2], 32767) {
                        Some(y) => ymd(y, m, day),
                        None => None,
                    },
                    None => None,
                },
                None => None,
            },
        }
    }
}

fn after_weekday_vec(s: &Vec<char>) -> (r: Vec<char>)
    ensures
        r@ == after_weekday(s@),
{
    let t = trim_vec(s);
    let mut comma: Vec<char> = Vec::new();
    comma.push(',');
    assert(comma@ =~= seq![',']);
    match split_once_vec(&t, &comma) {
        Some((w, rest)) => if weekday_name_vec(&trim_vec(&w)) {
            trim_vec(&rest)
        } else {
            t
        },
        None => t,
    }
}

fn weekday_name_vec(w: &Vec<char>) -> (r: bool)
    ensures
        r == weekday_name(w@),
{
    let l = lower_vec(w);
    crate::text::vec_eq_str(&l, "mon") || crate::text::vec_eq_str(&l, "tue") || crate::text::vec_eq_str(&l, "wed") || crate::text::vec_eq_str(&l, "thu") || crate::text::vec_eq_str(&l, "fri") || crate::text::vec_eq_str(&l, "sat") || crate::text::vec_eq_str(&l, "sun") || crate::text::vec_eq_str(&l, "monday") || crate::text::vec_eq_str(&l, "tuesday") || crate::text::vec_eq_str(&l, "wednesday") || crate::text::vec_eq_str(&l, "thursday") || crate::text::vec_eq_str(&l, "friday") || crate::text::vec_eq_str(&l, "saturday") || crate::text::vec_eq_str(&l, "sunday")
}

fn token_uint(tk: &Vec<Vec<char>>, i: usize, max: u64) -> (r: Option<u64>)
    requires
        i < tk.len(),
        9 <= max,
    ensures
        match r {
            Some(v) => small_uint(tk@[i as int]@, max as int) == Some(v as int),
            None => small_uint(tk@[i as int]@, max as int) == None::<int>,
        },
{
    parse_uint(&tk[i], max)
}

/// Parse "05-Aug-2026" (NSE) or "5 Aug 2026" style dates.
pub fn parse_day_month_year(s: &str) -> (r: Option<Date>)
    ensures
        r == day_month_year(s@),
{
    let v = chars_of(s);
    parse_day_month_year_chars(&v)
}

/// `parse_day_month_year` on characters.
pub fn parse_day_month_year_chars(s: &Vec<char>) -> (r: Option<Date>)
    ensures
        r == day_month_year(s@),
{
    let u = after_weekday_vec(s);
    let tk = alnum_tokens_vec(&u);
    let ghost gt = alnum_tokens(u@);
    assert(tk@.len() == gt.len());
    if tk.len() < 3 {
        return None;
    }
    assert(tk@[0]@ == gt[0] && tk@[1]@ == gt[1] && tk@[2]@ == gt[2]);
    match token_uint(&tk, 0, 127) {
        Some(day) => match month_index(&tk[1]) {
            Some(m) => match token_uint(&tk, 2, 32767) {
                Some(y) => date_new(y as i16, m as i8, day as i8),
                None => None,
            },
            None => None,
        },
        None => match month_index(&tk[0]) {
            Some(m) => match token_uint(&tk, 1, 127) {
                Some(day) => match token_uint(&tk, 2, 32767) {
                    Some(y) => date_new(y as i16, m as i8, day as i8),
                    None => None,
                },
                None => None,
            },
            None => None,
        },
    }
}

/// A month-first date, "Aug 5, 2026" or "Aug 5"; a missing or unreadable
/// year is `default_year`.
pub open spec fn month_day(s: Seq<char>, default_year: int) -> Option<Date> {
    let tk = alnum_tokens(after_weekday(s));
    if tk.len() < 2 {
        None
    } else {
        match month_of(tk[0]) {
            Some(m) => match small_uint(tk[1], 127) {
                Some(day) => {
                    let y = if tk.len() > 2 && small_uint(tk[2], 32767) is Some {
                        small_uint(tk[2], 32767)->0
                    } else {
                        default_year
                    };
                    ymd(y, m, day)
                },
                None => None,
            },
            None => None,
        }
    }
}

/// Parse a month-first date, taking a missing year from `default_year`.
pub fn parse_month_day_in(s: &Vec<char>, default_year: i16) -> (r: Option<Date>)
    ensures
        r == month_day(s@, default_year as int),
{
    let u = after_weekday_vec(s);
    let tk = alnum_tokens_vec(&u);
    let ghost gt = alnum_tokens(u@);
    if tk.len() < 2 {
        return None;
    }
    assert(tk@[0]@ == gt[0] && tk@[1]@ == gt[1]);
    match month_index(&tk[0]) {
        Some(m) => match token_uint(&tk, 1, 127) {
            Some(day) => {
                let mut y: i16 = default_year;
                if tk.len() > 2 {
                    assert(tk@[2]@ == gt[2]);
                    match token_uint(&tk, 2, 32767) {
                        Some(v) => {
                            y = v as i16;
                        },
                        None => {},
                    }
                }
                date_new(y, m as i8, day as i8)
            },
            None => None,
        },
        None => None,
    }
}

/// Parse a date like "Aug 5, 2026" (month first, possibly with year); a
/// missing year is the current year in Indian Standard Time.
pub fn parse_month_day(s: &str) -> (r: Option<Date>)
    ensures
        exists|y: int| -9999 <= y <= 9999 && r == month_day(s@, y),
{
    let now = crate::date::now_ist();
    let v = chars_of(s);
    parse_month_day_in(&v, now.date.year)
}

/// `parse_period` with today's date (Indian Standard Time) for year
/// defaults.
pub fn parse_period_now(s: &str) -> (r: Option<(Date, Date)>)
    ensures
        exists|today: Date| today.wf() && r == period_in(s@, today),
{
    let now = crate::date::now_ist();
    parse_period(s, now.date)
}

/// Index of the first token (from `i` on) that names a month.
pub open spec fn first_month_token(tk: Seq<Seq<char>>, i: int) -> Option<int>
    decreases tk.len() - i,
{
    if i < 0 || i >= tk.len() {
        None
    } else if month_of(tk[i]) is Some {
        Some(i)
    } else {
        first_month_token(tk, i + 1)
    }
}

/// The first month token found is a month, within the tokens.
proof fn lemma_first_month_token(tk: Seq<Seq<char>>, i: int)
    ensures
        first_month_token(tk, i) matches Some(j) ==> i <= j < tk.len() && month_of(tk[j]) is Some,
    decreases tk.len() - i,
{
    if i >= 0 && i < tk.len() && !(month_of(tk[i]) is Some) {
        lemma_first_month_token(tk, i + 1);
    }
}

/// The tokens that read as small unsigned integers, in order, as values.
pub open spec fn small_uints(tk: Seq<Seq<char>>, max: int) -> Seq<int>
    decreases tk.len(),
{
    if tk.len() == 0 {
        Seq::empty()
    } else {
        let p = small_uints(tk.drop_last(), max);
        match small_uint(tk.last(), max) {
            Some(v) => p.push(v),
            None => p,
        }
    }
}

/// Every small integer read lies between 0 and the bound.
proof fn lemma_small_uints_bound(tk: Seq<Seq<char>>, max: int)
    ensures
        forall|k: int| 0 <= k < small_uints(tk, max).len() ==> 0 <= #[trigger] small_uints(tk, max)[k] <= max,
    decreases tk.len(),
{
    if tk.len() > 0 {
        lemma_small_uints_bound(tk.drop_last(), max);
        let p = small_uints(tk.drop_last(), max);
        match small_uint(tk.last(), max) {
            Some(v) => {
                assert(0 <= v <= max);
                assert(small_uints(tk, max) == p.push(v));
                assert forall|k: int| 0 <= k < p.push(v).len() implies 0 <= #[trigger] p.push(v)[k]
                    <= max by {
                    if k < p.len() {
                        assert(p.push(v)[k] == p[k]);
                    }
                }
            },
            None => {},
        }
    }
}

/// Both dates of "DD-Mon-YYYY to DD-Mon-YYYY", when both parse.
pub open spec fn nse_period(t: Seq<char>) -> Option<(Date, Date)> {
    match split_once(t, " to "@) {
        Some((a, b)) => match (day_month_year(a), day_month_year(b)) {
            (Some(x), Some(y)) => Some((x, y)),
            _ => None,
        },
        None => None,
    }
}

/// An issue window as (open, close): "29 to 31 Jul, 2026", "10 - 12 Aug",
/// "30-3 August" (a second day below the first opens in the previous
/// month), or "05-Aug-2026 to 07-Aug-2026". The first month token decides
/// the month; the first two day numbers before it are open and close; the
/// token after it is the year, else `today`'s year. `None` when the window
/// would cross a year boundary.
pub open spec fn period_in(s: Seq<char>, today: Date) -> Option<(Date, Date)> {
    let t = trim(s);
    if nse_period(t) is Some {
        nse_period(t)
    } else {
        let tk = alnum_tokens(t);
        match first_month_token(tk, 0) {
            Some(mp) => {
                let month = month_of(tk[mp])->0;
                let days = small_uints(tk.take(mp), 127);
                if days.len() < 2 {
                    None
                } else {
                    let year = if mp + 1 < tk.len() && small_uint(tk[mp + 1], 32767) is Some {
                        small_uint(tk[mp + 1], 32767)->0
                    } else {
                        today.year as int
                    };
                    let d1 = days[0];
                    let d2 = days[1];
                    let m1 = if d2 < d1 { month - 1 } else { month };
                    if m1 < 1 || month > 12 {
                        None
                    } else {
                        match (ymd(year, m1, d1), ymd(year, month, d2)) {
                            (Some(a), Some(b)) => Some((a, b)),
                            _ => None,
                        }
                    }
                }
            },
            None => None,
        }
    }
}

fn small_uints_prefix(tk: &Vec<Vec<char>>, n: usize, max: u64) -> (r: Vec<u64>)
    requires
        n <= tk.len(),
        9 <= max,
    ensures
        r@.len() == small_uints(tk@.take(n as int).map_values(|x: Vec<char>| x@), max as int).len(),
        forall|k: int| 0 <= k < r@.len() ==> #[trigger] r@[k] as int == small_uints(
            tk@.take(n as int).map_values(|x: Vec<char>| x@),
            max as int,
        )[k],
{
    let mut r: Vec<u64> = Vec::new();
    let mut i: usize = 0;
    while i < n
        invariant
            i <= n <= tk.len(),
            9 <= max,
            r@.len() == small_uints(tk@.take(i as int).map_values(|x: Vec<char>| x@), max as int).len(),
            forall|k: int| 0 <= k < r@.len() ==> #[trigger] r@[k] as int == small_uints(
                tk@.take(i as int).map_values(|x: Vec<char>| x@),
                max as int,
            )[k],
        decreases n - i,
    {
        let ghost prev = tk@.take(i as int).map_values(|x: Vec<char>| x@);
        let ghost next = tk@.take(i + 1).map_values(|x: Vec<char>| x@);
        assert(next.drop_last() =~= prev);
        assert(next.last() == tk@[i as int]@);
        match token_uint(tk, i, max) {
            Some(v) => {
                r.push(v);
            },
            None => {},
        }
        i = i + 1;
    }
    r
}

fn first_month_token_vec(tk: &Vec<Vec<char>>) -> (r: Option<usize>)
    ensures
        match r {
            Some(i) => first_month_token(tk@.map_values(|x: Vec<char>| x@), 0) == Some(i as int)
                && i < tk.len(),
            None => first_month_token(tk@.map_values(|x: Vec<char>| x@), 0) == None::<int>,
        },
{
    let ghost g = tk@.map_values(|x: Vec<char>| x@);
    let mut i: usize = 0;
    while i < tk.len()
        invariant
            i <= tk.len(),
            g == tk@.map_values(|x: Vec<char>| x@),
            first_month_token(g, 0) == first_month_token(g, i as int),
        decreases tk.len() - i,
    {
        assert(g[i as int] == tk@[i as int]@);
        if month_index(&tk[i]).is_some() {
            return Some(i);
        }
        i = i + 1;
    }
    None
}

/// Parse an issue window into (open, close); year-less periods default to
/// `today`'s year.
pub fn parse_period(s: &str, today: Date) -> (r: Option<(Date, Date)>)
    ensures
        r == period_in(s@, today),
{
    let v = chars_of(s);
    parse_period_chars(&v, today)
}

/// `parse_period` on characters.
pub fn parse_period_chars(s: &Vec<char>, today: Date) -> (r: Option<(Date, Date)>)
    ensures
        r == period_in(s@, today),
{
    let t = trim_vec(s);
    let sep = chars_of(" to ");
    match split_once_vec(&t, &sep) {
        Some((a, b)) => {
            match (parse_day_month_year_chars(&a), parse_day_month_year_chars(&b)) {
                (Some(x), Some(y)) => {
                    return Some((x, y));
                },
                _ => {},
            }
        },
        None => {},
    }
    assert(nse_period(t@) is None);
    let tk = alnum_tokens_vec(&t);
    let ghost g = tk@.map_values(|x: Vec<char>| x@);
    assert(g =~= alnum_tokens(t@));
    match first_month_token_vec(&tk) {
        Some(mp) => {
            proof {
                lemma_first_month_token(g, 0);
                assert(g[mp as int] == tk@[mp as int]@);
            }
            let month = match month_index(&tk[mp]) {
                Some(m) => m,
                None => {
                    assert(false);
                    0
                },
            };
            let days = small_uints_prefix(&tk, mp, 127);
            assert(tk@.take(mp as int).map_values(|x: Vec<char>| x@) =~= g.take(mp as int));
            if days.len() < 2 {
                return None;
            }
            let mut year: i16 = today.year;
            if mp + 1 < tk.len() {
                assert(g[mp + 1] == tk@[mp + 1]@);
                match token_uint(&tk, mp + 1, 32767) {
                    Some(y) => {
                        year = y as i16;
                    },
                    None => {},
                }
            }
            let d1 = days[0];
            let d2 = days[1];
            proof {
                let sd = small_uints(g.take(mp as int), 127);
                lemma_small_uints_bound(g.take(mp as int), 127);
                assert(sd.len() >= 2);
                assert(sd[0] <= 127 && sd[1] <= 127);
                assert(d1 as int == sd[0]);
                assert(d2 as int == sd[1]);
                assert(month as int == month_of(g[mp as int])->0);
                let syear = if mp + 1 < g.len() && small_uint(g[mp + 1], 32767) is Some {
                    small_uint(g[mp + 1], 32767)->0
                } else {
                    today.year as int
                };
                assert(year as int == syear);
            }
            let m1: u8 = if d2 < d1 { month - 1 } else { month };
            if m1 < 1 || month > 12 {
                return None;
            }
            match (date_new(year, m1 as i8, d1 as i8), date_new(year, month as i8, d2 as i8)) {
                (Some(a), Some(b)) => Some((a, b)),
                _ => None,
            }
        },
        None => None,
    }
}

/// The year of a day-range issue window is the token right after the
/// month when that token reads as a year: both dates of the window carry
/// that year, and the window is the same whatever day `today` is ("29 to
/// 31 Dec, 2025" is the last days of 2025 also when read in 2026). Only a
/// window without such a token takes `today`'s year.
pub proof fn lemma_period_year_token(s: Seq<char>, today: Date, other: Date)
    requires
        nse_period(trim(s)) is None,
        first_month_token(alnum_tokens(trim(s)), 0) matches Some(mp) && mp + 1 < alnum_tokens(
            trim(s),
        ).len() && small_uint(alnum_tokens(trim(s))[mp + 1], 32767) is Some,
    ensures
        period_in(s, today) matches Some((a, b)) ==> a.year as int == small_uint(
            alnum_tokens(trim(s))[first_month_token(alnum_tokens(trim(s)), 0)->0 + 1],
            32767,
        )->0 && b.year as int == small_uint(
            alnum_tokens(trim(s))[first_month_token(alnum_tokens(trim(s)), 0)->0 + 1],
            32767,
        )->0,
        period_in(s, today) == period_in(s, other),
{
    let tk = alnum_tokens(trim(s));
    let mp = first_month_token(tk, 0)->0;
    let y = small_uint(tk[mp + 1], 32767)->0;
    assert(0 <= y <= 32767);
}

/// A day-range issue window runs from the first day number before the
/// month token to the second, and closes in that month: the close date
/// has the month and the second day, the open date the first day, in the
/// same month when it is not after the close day and in the month before
/// otherwise ("30-3 August" opens on 30 July), and both in one year.
pub proof fn lemma_period_days(s: Seq<char>, today: Date)
    requires
        nse_period(trim(s)) is None,
        first_month_token(alnum_tokens(trim(s)), 0) is Some,
    ensures
        period_in(s, today) matches Some((a, b)) ==> {
            let tk = alnum_tokens(trim(s));
            let mp = first_month_token(tk, 0)->0;
            let days = small_uints(tk.take(mp), 127);
            &&& b.month as int == month_of(tk[mp])->0
            &&& a.day as int == days[0]
            &&& b.day as int == days[1]
            &&& a.day <= b.day ==> a.month == b.month
            &&& a.day > b.day ==> a.month + 1 == b.month
            &&& a.year == b.year
        },
{
    let tk = alnum_tokens(trim(s));
    let mp = first_month_token(tk, 0)->0;
    lemma_small_uints_bound(tk.take(mp), 127);
}

/// `today` matters to an issue window through its year alone, and not at
/// all to a window of two full dates ("05-Aug-2026 to 07-Aug-2026").
pub proof fn lemma_period_today_year(s: Seq<char>, today: Date, other: Date)
    ensures
        today.year == other.year ==> period_in(s, today) == period_in(s, other),
        nse_period(trim(s)) is Some ==> period_in(s, today) == nse_period(trim(s)) && period_in(
            s,
            today,
        ) == period_in(s, other),
{
}

/// A window without a year token takes `today`'s year for both dates.
pub proof fn lemma_period_default_year(s: Seq<char>, today: Date)
    requires
        nse_period(trim(s)) is None,
        first_month_token(alnum_tokens(trim(s)), 0) matches Some(mp) && !(mp + 1 < alnum_tokens(
            trim(s),
        ).len() && small_uint(alnum_tokens(trim(s))[mp + 1], 32767) is Some),
    ensures
        period_in(s, today) matches Some((a, b)) ==> a.year == today.year && b.year == today.year,
{
}

// ---------------------------------------------------------------------------
// Price band and lot
// ---------------------------------------------------------------------------

/// The amounts that the pieces state, in order, skipping pieces without one.
pub open spec fn rupee_amounts(pieces: Seq<Seq<char>>) -> Seq<Decimal>
    decreases pieces.len(),
{
    if pieces.len() == 0 {
        Seq::empty()
    } else {
        let p = rupee_amounts(pieces.drop_last());
        match rupees_in(pieces.last()) {
            Some(v) => p.push(v),
            None => p,
        }
    }
}

/// A price band "Rs. 50 to Rs. 53": the first two amounts among the pieces
/// between " to " separators.
pub open spec fn band_in(s: Seq<char>) -> Option<(Decimal, Decimal)> {
    let nums = rupee_amounts(split_on(s, " to "@));
    if nums.len() >= 2 {
        Some((nums[0], nums[1]))
    } else {
        None
    }
}

/// Parse a "Rs. 50 to Rs. 53" style price band into (low, high).
pub fn parse_band(s: &str) -> (r: Option<(Decimal, Decimal)>)
    ensures
        r == band_in(s@),
{
    let v = chars_of(s);
    parse_band_chars(&v)
}

/// `parse_band` on characters.
pub fn parse_band_chars(s: &Vec<char>) -> (r: Option<(Decimal, Decimal)>)
    ensures
        r == band_in(s@),
{
    let sep = chars_of(" to ");
    let pieces = split_on_vec(s, &sep);
    let ghost g = split_on(s@, " to "@);
    let mut nums: Vec<Decimal> = Vec::new();
    let mut i: usize = 0;
    while i < pieces.len()
        invariant
            i <= pieces.len(),
            pieces@.len() == g.len(),
            forall|k: int| 0 <= k < pieces@.len() ==> #[trigger] pieces@[k]@ == g[k],
            nums@ == rupee_amounts(g.take(i as int)),
        decreases pieces.len() - i,
    {
        assert(g.take(i + 1).drop_last() =~= g.take(i as int));
        assert(g.take(i + 1).last() == pieces@[i as int]@);
        match parse_rupees_chars(&pieces[i]) {
            Some(d) => {
                nums.push(d);
            },
            None => {},
        }
        i = i + 1;
    }
    assert(g.take(g.len() as int) =~= g);
    if nums.len() >= 2 {
        Some((nums[0], nums[1]))
    } else {
        None
    }
}

/// The integers that the pieces lead with, in order, skipping pieces
/// without one.
pub open spec fn int_values(pieces: Seq<Seq<char>>) -> Seq<i64>
    decreases pieces.len(),
{
    if pieces.len() == 0 {
        Seq::empty()
    } else {
        let p = int_values(pieces.drop_last());
        match int_in(pieces.last()) {
            Some(v) => p.push(v),
            None => p,
        }
    }
}

/// A lot: the first integer among the whitespace-separated words is the
/// minimum, the second (else the minimum again) the multiple.
pub open spec fn lot_in(s: Seq<char>) -> Option<(i64, i64)> {
    let nums = int_values(tokens(s, |c: char| is_ws_sep(c)));
    if nums.len() == 0 {
        None
    } else if nums.len() == 1 {
        Some((nums[0], nums[0]))
    } else {
        Some((nums[0], nums[1]))
    }
}

/// Parse "Minimum 281 Equity shares and in multiples thereof" → (281, 281).
/// Some issues have different multiple (rare); both default to the min.
pub fn parse_lot(s: &str) -> (r: Option<(i64, i64)>)
    ensures
        r == lot_in(s@),
{
    let v = chars_of(s);
    let words = words_vec(&v);
    let ghost g = tokens(v@, |c: char| is_ws_sep(c));
    let mut nums: Vec<i64> = Vec::new();
    let mut i: usize = 0;
    while i < words.len()
        invariant
            i <= words.len(),
            words@.len() == g.len(),
            forall|k: int| 0 <= k < words@.len() ==> #[trigger] words@[k]@ == g[k],
            nums@ == int_values(g.take(i as int)),
        decreases words.len() - i,
    {
        assert(g.take(i + 1).drop_last() =~= g.take(i as int));
        assert(g.take(i + 1).last() == words@[i as int]@);
        match parse_int_chars(&words[i]) {
            Some(n) => {
                nums.push(n);
            },
            None => {},
        }
        i = i + 1;
    }
    assert(g.take(g.len() as int) =~= g);
    if nums.len() == 0 {
        None
    } else if nums.len() == 1 {
        Some((nums[0], nums[0]))
    } else {
        Some((nums[0], nums[1]))
    }
}

/// A parse error with the given message.
pub fn parse_err(msg: &str) -> (e: crate::error::Error)
    ensures
        e matches crate::error::Error::Parse(m) && m@ == msg@,
{
    crate::error::Error::parse(msg)
}

// ---------------------------------------------------------------------------
// Reading back what the formatter writes
// ---------------------------------------------------------------------------

proof fn lemma_digit_char(d: nat)
    requires
        d < 10,
    ensures
        is_digit(crate::format::digit_char(d)),
        (crate::format::digit_char(d) as int) - ('0' as int) == d,
        crate::format::digit_char(d) != '.',
        crate::format::digit_char(d) != ',',
{
}

proof fn lemma_nat_digits(n: nat)
    ensures
        forall|i: int| 0 <= i < crate::format::nat_digits(n).len() ==> is_digit(#[trigger] crate::format::nat_digits(n)[i]),
        digits_value(crate::format::nat_digits(n)) == n,
    decreases n,
{
    if n > 0 {
        lemma_nat_digits(n / 10);
        lemma_digit_char(n % 10);
        let p = crate::format::nat_digits(n / 10);
        let s = crate::format::nat_digits(n);
        assert(s == p.push(crate::format::digit_char(n % 10)));
        assert(s.drop_last() =~= p);
        assert forall|i: int| 0 <= i < s.len() implies is_digit(#[trigger] s[i]) by {
            if i < p.len() {
                assert(s[i] == p[i]);
            }
        }
    }
}

proof fn lemma_drop_commas_concat(a: Seq<char>, b: Seq<char>)
    ensures
        drop_commas(a + b) == drop_commas(a) + drop_commas(b),
    decreases b.len(),
{
    if b.len() == 0 {
        assert(a + b =~= a);
        assert(drop_commas(a) + drop_commas(b) =~= drop_commas(a));
    } else {
        lemma_drop_commas_concat(a, b.drop_last());
        assert((a + b).drop_last() =~= a + b.drop_last());
        assert((a + b).last() == b.last());
        if b.last() != ',' {
            assert(drop_commas(a) + drop_commas(b.drop_last()).push(b.last()) =~= (drop_commas(a)
                + drop_commas(b.drop_last())).push(b.last()));
        }
    }
}

proof fn lemma_drop_commas_plain(s: Seq<char>)
    requires
        forall|i: int| 0 <= i < s.len() ==> is_digit(#[trigger] s[i]),
    ensures
        drop_commas(s) == s,
    decreases s.len(),
{
    if s.len() > 0 {
        assert(is_digit(s[s.len() - 1]));
        lemma_drop_commas_plain(s.drop_last());
        assert(s.drop_last().push(s.last()) =~= s);
    }
}

/// Digits and commas only.
pub open spec fn digits_and_commas(g: Seq<char>) -> bool {
    forall|i: int| 0 <= i < g.len() ==> is_digit(#[trigger] g[i]) || g[i] == ','
}

proof fn lemma_group_by_two(s: Seq<char>)
    requires
        forall|i: int| 0 <= i < s.len() ==> is_digit(#[trigger] s[i]),
    ensures
        drop_commas(crate::format::group_by_two(s)) == s,
        digits_and_commas(crate::format::group_by_two(s)),
        s.len() > 0 ==> crate::format::group_by_two(s).len() > 0 && crate::format::group_by_two(s)[0] == s[0],
    decreases s.len(),
{
    let g = crate::format::group_by_two(s);
    if s.len() <= 2 {
        lemma_drop_commas_plain(s);
    } else {
        let head = s.subrange(0, s.len() - 2);
        let tail = s.subrange(s.len() - 2, s.len() as int);
        assert forall|i: int| 0 <= i < head.len() implies is_digit(#[trigger] head[i]) by {
            assert(head[i] == s[i]);
        }
        assert forall|i: int| 0 <= i < tail.len() implies is_digit(#[trigger] tail[i]) by {
            assert(tail[i] == s[s.len() - 2 + i]);
        }
        lemma_group_by_two(head);
        let gh = crate::format::group_by_two(head);
        assert(g == gh + seq![','] + tail);
        lemma_drop_commas_concat(gh + seq![','], tail);
        lemma_drop_commas_concat(gh, seq![',']);
        assert(drop_commas(seq![',']) =~= Seq::<char>::empty()) by {
            let c = seq![','];
            assert(c.len() == 1 && c.last() == ',');
            assert(c.drop_last() =~= Seq::<char>::empty());
            assert(drop_commas(c.drop_last()) =~= Seq::<char>::empty());
        }
        lemma_drop_commas_plain(tail);
        assert(head + tail =~= s);
        assert(drop_commas(gh) + Seq::<char>::empty() =~= drop_commas(gh));
        assert forall|i: int| 0 <= i < g.len() implies is_digit(#[trigger] g[i]) || g[i] == ',' by {
            if i < gh.len() {
                assert(g[i] == gh[i]);
            } else if i == gh.len() {
            } else {
                assert(g[i] == tail[i - gh.len() - 1]);
            }
        }
        assert(g[0] == gh[0]);
        assert(gh[0] == head[0]);
    }
}

proof fn lemma_indian_grouped(s: Seq<char>)
    requires
        s.len() > 0,
        forall|i: int| 0 <= i < s.len() ==> is_digit(#[trigger] s[i]),
    ensures
        drop_commas(crate::format::indian_grouped(s)) == s,
        digits_and_commas(crate::format::indian_grouped(s)),
        crate::format::indian_grouped(s).len() > 0,
        crate::format::indian_grouped(s)[0] == s[0],
        crate::format::indian_grouped(s).last() == s.last(),
{
    let g = crate::format::indian_grouped(s);
    if s.len() <= 3 {
        lemma_drop_commas_plain(s);
    } else {
        let head = s.subrange(0, s.len() - 3);
        let tail = s.subrange(s.len() - 3, s.len() as int);
        assert forall|i: int| 0 <= i < head.len() implies is_digit(#[trigger] head[i]) by {
            assert(head[i] == s[i]);
        }
        assert forall|i: int| 0 <= i < tail.len() implies is_digit(#[trigger] tail[i]) by {
            assert(tail[i] == s[s.len() - 3 + i]);
        }
        lemma_group_by_two(head);
        let gh = crate::format::group_by_two(head);
        assert(g == gh + seq![','] + tail);
        lemma_drop_commas_concat(gh + seq![','], tail);
        lemma_drop_commas_concat(gh, seq![',']);
        assert(drop_commas(seq![',']) =~= Seq::<char>::empty()) by {
            let c = seq![','];
            assert(c.len() == 1 && c.last() == ',');
            assert(c.drop_last() =~= Seq::<char>::empty());
            assert(drop_commas(c.drop_last()) =~= Seq::<char>::empty());
        }
        lemma_drop_commas_plain(tail);
        assert(head + tail =~= s);
        assert(drop_commas(gh) + Seq::<char>::empty() =~= drop_commas(gh));
        assert forall|i: int| 0 <= i < g.len() implies is_digit(#[trigger] g[i]) || g[i] == ',' by {
            if i < gh.len() {
                assert(g[i] == gh[i]);
            } else if i == gh.len() {
            } else {
                assert(g[i] == tail[i - gh.len() - 1]);
            }
        }
        assert(g[0] == gh[0]);
        assert(g.last() == tail.last());
    }
}

proof fn lemma_run_end_to_end(t: Seq<char>, i: int)
    requires
        0 <= i <= t.len(),
        digits_and_commas(t),
    ensures
        run_end(t, i, false) == t.len(),
    decreases t.len() - i,
{
    if i < t.len() {
        assert(is_digit(t[i]) || t[i] == ',');
        lemma_run_end_to_end(t, i + 1);
    }
}

proof fn lemma_trim_unpadded(g: Seq<char>)
    requires
        g.len() > 0,
        is_digit(g[0]),
        is_digit(g.last()),
    ensures
        trim(g) == g,
{
    assert(!crate::text::unicode_white_space(g[0]));
    assert(!crate::text::unicode_white_space(g.last()));
    assert(trim_start_index_zero(g));
    assert(g.subrange(0, g.len() as int) =~= g);
}

spec fn trim_start_index_zero(g: Seq<char>) -> bool {
    crate::text::trim_start_index(g) == 0 && crate::text::trim_end_index(g) == g.len()
}

/// What the formatter writes for a count, the reader reads back: a
/// non-negative integer in Indian grouping (as `format::shares` and
/// `format::integer` write it) parses to the same integer.
pub proof fn lemma_grouped_integer_reads_back(n: i64)
    requires
        n >= 0,
    ensures
        int_in(crate::format::indian_grouped(crate::format::int_text(n as int))) == Some(n),
{
    let s = crate::format::int_text(n as int);
    let m = n as nat;
    lemma_nat_digits(m);
    if m == 0 {
        lemma_digit_char(0);
        assert(s =~= seq!['0']);
        assert(digits_value(s) == 0) by {
            assert(s.drop_last() =~= Seq::<char>::empty());
        }
    } else {
        assert(s == crate::format::nat_digits(m));
        assert(s.len() > 0) by {
            assert(crate::format::nat_digits(m) == crate::format::nat_digits(m / 10).push(
                crate::format::digit_char(m % 10),
            ));
        }
    }
    assert(forall|i: int| 0 <= i < s.len() ==> is_digit(#[trigger] s[i]));
    lemma_indian_grouped(s);
    let g = crate::format::indian_grouped(s);
    lemma_trim_unpadded(g);
    assert(first_digit_from(g, 0) == Some(0int));
    lemma_run_end_to_end(g, 0);
    assert(g.subrange(0, g.len() as int) =~= g);
    assert(leading_number(trim(g), false) == Some((s, g.len() as int)));
    assert(digits_value(s) == m);
}

} // verus!

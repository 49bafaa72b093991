//! Number literals: which texts read as an `i64`, and which have the syntax of
//! a float.
use crate::ast::lexer::str_chars;
use vstd::prelude::*;

verus! {

/// Whether `c` is one of `0` to `9`.
pub open spec fn is_digit_char(c: char) -> bool {
    48 <= (c as u32) && (c as u32) <= 57
}

/// Value of a string of decimal digits.
pub open spec fn digits_value(d: Seq<char>) -> int
    decreases d.len(),
{
    if d.len() == 0 {
        0
    } else {
        digits_value(d.drop_last()) * 10 + ((d.last() as u32) - 48)
    }
}

pub open spec fn all_digits(d: Seq<char>) -> bool {
    forall|i: int| 0 <= i < d.len() ==> is_digit_char(#[trigger] d[i])
}

/// The text after an optional leading sign.
pub open spec fn unsigned_part(s: Seq<char>) -> Seq<char> {
    if s.len() > 0 && (s[0] == '-' || s[0] == '+') {
        s.skip(1)
    } else {
        s
    }
}

/// What `str::parse::<i64>` gives: an optional sign, then at least one digit,
/// and a value in range.
pub open spec fn parse_i64(s: Seq<char>) -> Option<i64> {
    let neg = s.len() > 0 && s[0] == '-';
    let d = unsigned_part(s);
    if d.len() == 0 || !all_digits(d) {
        None
    } else {
        let v = if neg {
            -digits_value(d)
        } else {
            digits_value(d)
        };
        if i64::MIN <= v <= i64::MAX {
            Some(v as i64)
        } else {
            None
        }
    }
}

/// Index of the first non-digit at or after `j`.
pub open spec fn digit_run(s: Seq<char>, j: int) -> int
    decreases s.len() - j,
{
    if 0 <= j < s.len() && is_digit_char(s[j]) {
        digit_run(s, j + 1)
    } else {
        j
    }
}

/// The code of a character, with ASCII capitals made small.
pub open spec fn lower_code(c: char) -> u32 {
    if 65 <= (c as u32) <= 90 {
        ((c as u32) + 32) as u32
    } else {
        c as u32
    }
}

/// Whether `s` equals the lower-case word `w`, ignoring ASCII case.
pub open spec fn same_word(s: Seq<char>, w: Seq<char>) -> bool {
    s.len() == w.len() && forall|i: int| 0 <= i < s.len() ==> lower_code(#[trigger] s[i]) == w[i] as u32
}

/// Whether the exponent that starts at `e` (its `e` or `E` included) runs to
/// the end of `r`: an optional sign and at least one digit.
pub open spec fn exponent_ok(r: Seq<char>, e: int) -> bool {
    (r[e] == 'e' || r[e] == 'E') && {
        let f = if e + 1 < r.len() && (r[e + 1] == '-' || r[e + 1] == '+') {
            e + 2
        } else {
            e + 1
        };
        f < r.len() && digit_run(r, f) == r.len()
    }
}

/// The syntax that `str::parse::<f64>` accepts: an optional sign, then `inf`,
/// `infinity` or `nan` in any case, or digits with at most one point and at
/// least one digit, and an optional exponent.
pub open spec fn is_float_text(s: Seq<char>) -> bool {
    let r = unsigned_part(s);
    if same_word(r, "inf"@) || same_word(r, "infinity"@) || same_word(r, "nan"@) {
        true
    } else {
        let a = digit_run(r, 0);
        let point = a < r.len() && r[a] == '.';
        let e = if point {
            digit_run(r, a + 1)
        } else {
            a
        };
        let mantissa_ok = if point {
            a > 0 || e > a + 1
        } else {
            a > 0
        };
        mantissa_ok && (e == r.len() || exponent_ok(r, e))
    }
}

/// The value of the digits grows with each digit read.
proof fn lemma_digits_prefix(d: Seq<char>, k: int)
    requires
        all_digits(d),
        0 <= k <= d.len(),
    ensures
        0 <= digits_value(d.take(k)) <= digits_value(d),
    decreases d.len(),
{
    if k == d.len() {
        assert(d.take(k) =~= d);
        lemma_digits_nonneg(d);
    } else {
        assert(d.drop_last().take(k) =~= d.take(k));
        lemma_digits_prefix(d.drop_last(), k);
        lemma_digits_nonneg(d.drop_last());
    }
}

proof fn lemma_digits_nonneg(d: Seq<char>)
    requires
        all_digits(d),
    ensures
        digits_value(d) >= 0,
    decreases d.len(),
{
    if d.len() > 0 {
        lemma_digits_nonneg(d.drop_last());
    }
}

/// Reads a whole string as an `i64`, as `str::parse::<i64>` does.
pub fn parse_int(text: &str) -> (r: Option<i64>)
    ensures
        r == parse_i64(text@),
{
    let s = str_chars(text);
    let n = s.len();
    let neg = n > 0 && s[0] == '-';
    let start: usize = if n > 0 && (s[0] == '-' || s[0] == '+') {
        1
    } else {
        0
    };
    let ghost d = s@.subrange(start as int, n as int);
    assert(d =~= unsigned_part(text@));
    if start == n {
        return None;
    }
    let mut acc: u64 = 0;
    let mut i = start;
    assert(d.take(0) =~= Seq::<char>::empty());
    while i < n
        invariant
            d == s@.subrange(start as int, n as int),
            d == unsigned_part(text@),
            s@ == text@,
            n == s@.len(),
            start <= i <= n,
            acc as int == digits_value(d.take(i - start)),
            acc <= 0x8000_0000_0000_0000u64,
            forall|k: int| 0 <= k < i - start ==> is_digit_char(#[trigger] d[k]),
        decreases n - i,
    {
        let ch = s[i];
        let code = ch as u32;
        if code < 48 || code > 57 {
            assert(!is_digit_char(d[i - start]));
            return None;
        }
        assert(d.take(i - start + 1).drop_last() =~= d.take(i - start));
        let next: u128 = (acc as u128) * 10 + ((code - 48) as u128);
        assert(next as int == digits_value(d.take(i - start + 1)));
        if next > 0x8000_0000_0000_0000u128 {
            proof {
                if all_digits(d) {
                    lemma_digits_prefix(d, i - start + 1);
                }
            }
            return None;
        }
        acc = next as u64;
        i = i + 1;
    }
    assert(d.take(n - start) =~= d);
    if neg {
        if acc == 0x8000_0000_0000_0000u64 {
            Some(i64::MIN)
        } else {
            let v = acc as i64;
            Some(-v)
        }
    } else if acc <= 0x7fff_ffff_ffff_ffffu64 {
        Some(acc as i64)
    } else {
        None
    }
}

/// Index of the first non-digit at or after `j`.
fn digit_run_exec(s: &Vec<char>, j: usize) -> (r: usize)
    requires
        j <= s@.len(),
    ensures
        r == digit_run(s@, j as int),
        j <= r <= s@.len(),
{
    let mut i = j;
    while i < s.len() && (s[i] as u32) >= 48 && (s[i] as u32) <= 57
        invariant
            j <= i <= s@.len(),
            digit_run(s@, i as int) == digit_run(s@, j as int),
        decreases s@.len() - i,
    {
        i = i + 1;
    }
    i
}

/// Whether `s` equals the lower-case word `w`, ignoring ASCII case.
fn same_word_exec(s: &Vec<char>, w: &Vec<char>) -> (r: bool)
    ensures
        r == same_word(s@, w@),
{
    if s.len() != w.len() {
        return false;
    }
    let mut i: usize = 0;
    while i < s.len()
        invariant
            s@.len() == w@.len(),
            i <= s@.len(),
            forall|k: int| 0 <= k < i ==> lower_code(#[trigger] s@[k]) == w@[k] as u32,
        decreases s@.len() - i,
    {
        let code = s[i] as u32;
        let low = if 65 <= code && code <= 90 {
            code + 32
        } else {
            code
        };
        if low != w[i] as u32 {
            return false;
        }
        i = i + 1;
    }
    true
}

/// Whether a text has the syntax of a float, as `str::parse::<f64>` reads it.
pub fn float_syntax(text: &str) -> (r: bool)
    ensures
        r == is_float_text(text@),
{
    let s = str_chars(text);
    let n = s.len();
    let start: usize = if n > 0 && (s[0] == '-' || s[0] == '+') {
        1
    } else {
        0
    };
    let mut r: Vec<char> = Vec::new();
    let mut k = start;
    while k < n
        invariant
            start <= k <= n,
            n == s@.len(),
            r@ == s@.subrange(start as int, k as int),
        decreases n - k,
    {
        r.push(s[k]);
        k = k + 1;
    }
    assert(r@ =~= unsigned_part(text@));
    let inf = str_chars("inf");
    let infinity = str_chars("infinity");
    let nan = str_chars("nan");
    if same_word_exec(&r, &inf) || same_word_exec(&r, &infinity) || same_word_exec(&r, &nan) {
        return true;
    }
    let len = r.len();
    let a = digit_run_exec(&r, 0);
    let point = a < len && r[a] == '.';
    let e = if point {
        digit_run_exec(&r, a + 1)
    } else {
        a
    };
    let mantissa_ok = if point {
        a > 0 || e > a + 1
    } else {
        a > 0
    };
    if !mantissa_ok {
        return false;
    }
    if e == len {
        return true;
    }
    if !(r[e] == 'e' || r[e] == 'E') {
        return false;
    }
    let f = if e + 1 < len && (r[e + 1] == '-' || r[e + 1] == '+') {
        e + 2
    } else {
        e + 1
    };
    f < len && digit_run_exec(&r, f) == len
}

} // verus!

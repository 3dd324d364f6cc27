use vstd::prelude::*;

verus! {

/// An ASCII decimal digit.
pub open spec fn is_digit(c: char) -> bool {
    '0' <= c && c <= '9'
}

/// The value of an ASCII decimal digit.
pub open spec fn digit_value(c: char) -> int {
    c as int - '0' as int
}

/// Every character of `d` is a digit.
pub open spec fn all_digits(d: Seq<char>) -> bool {
    forall|k: int| 0 <= k < d.len() ==> is_digit(#[trigger] d[k])
}

/// The value of a string of digits, read in base 10.
pub open spec fn digits_value(d: Seq<char>) -> int
    decreases d.len(),
{
    if d.len() == 0 {
        0
    } else {
        digits_value(d.drop_last()) * 10 + digit_value(d.last())
    }
}

/// `w` starts with `+` or `-`.
pub open spec fn has_sign(w: Seq<char>) -> bool {
    w.len() > 0 && (w[0] == '+' || w[0] == '-')
}

/// `w` without its leading sign, if it has one.
pub open spec fn unsigned_part(w: Seq<char>) -> Seq<char> {
    if has_sign(w) {
        w.drop_first()
    } else {
        w
    }
}

/// The value of `w` read as a signed 64-bit integer: an optional sign, then
/// one or more digits, with a value that fits in 64 bits.
pub open spec fn int_literal(w: Seq<char>) -> Option<int> {
    let d = unsigned_part(w);
    if d.len() > 0 && all_digits(d) {
        let v = if w[0] == '-' {
            -digits_value(d)
        } else {
            digits_value(d)
        };
        if i64::MIN <= v <= i64::MAX {
            Some(v)
        } else {
            None
        }
    } else {
        None
    }
}

/// The exponent marker of a decimal literal.
pub open spec fn is_exp_marker(c: char) -> bool {
    c == 'e' || c == 'E'
}

/// Digits with at most one `.` among them, and at least one digit.
pub open spec fn is_mantissa(m: Seq<char>) -> bool {
    &&& forall|k: int| 0 <= k < m.len() ==> is_digit(#[trigger] m[k]) || m[k] == '.'
    &&& forall|j: int, k: int|
        0 <= j < m.len() && 0 <= k < m.len() && #[trigger] m[j] == '.' && #[trigger] m[k] == '.'
            ==> j == k
    &&& exists|k: int| 0 <= k < m.len() && is_digit(#[trigger] m[k])
}

/// An optional sign followed by one or more digits.
pub open spec fn is_exponent(x: Seq<char>) -> bool {
    unsigned_part(x).len() > 0 && all_digits(unsigned_part(x))
}

/// A mantissa, optionally followed by an exponent marker and an exponent.
pub open spec fn is_decimal(b: Seq<char>) -> bool {
    is_mantissa(b) || exists|k: int|
        0 <= k < b.len() && is_exp_marker(#[trigger] b[k]) && is_mantissa(b.take(k)) && is_exponent(
            b.skip(k + 1),
        )
}

/// `w` spells a word whose letters are given in lower and in upper case,
/// each letter in either case.
pub open spec fn same_letters(w: Seq<char>, lower: Seq<char>, upper: Seq<char>) -> bool {
    &&& w.len() == lower.len()
    &&& w.len() == upper.len()
    &&& forall|k: int| 0 <= k < w.len() ==> #[trigger] w[k] == lower[k] || w[k] == upper[k]
}

/// The named values of floating-point literals, in any case.
pub open spec fn is_special(b: Seq<char>) -> bool {
    same_letters(b, "inf"@, "INF"@) || same_letters(b, "infinity"@, "INFINITY"@) || same_letters(
        b,
        "nan"@,
        "NAN"@,
    )
}

/// The grammar of floating-point literals: an optional sign, then `inf`,
/// `infinity`, `nan` or a decimal number with an optional exponent.
pub open spec fn is_float_literal(w: Seq<char>) -> bool {
    is_special(unsigned_part(w)) || is_decimal(unsigned_part(w))
}

/// A prefix of a string of digits is worth no more than the whole.
pub proof fn lemma_digits_prefix(d: Seq<char>, k: int)
    requires
        all_digits(d),
        0 <= k <= d.len(),
    ensures
        0 <= digits_value(d.take(k)) <= digits_value(d),
    decreases d.len(),
{
    if k == d.len() {
        assert(d.take(k) =~= d);
        lemma_digits_nonneg(d);
    } else {
        let p = d.drop_last();
        assert(all_digits(p)) by {
            assert forall|j: int| 0 <= j < p.len() implies is_digit(#[trigger] p[j]) by {
                assert(p[j] == d[j]);
            }
        }
        lemma_digits_prefix(p, k);
        assert(p.take(k) =~= d.take(k));
        assert(is_digit(d[d.len() - 1]));
        lemma_digits_nonneg(p);
    }
}

/// A string of digits has a non-negative value.
pub proof fn lemma_digits_nonneg(d: Seq<char>)
    requires
        all_digits(d),
    ensures
        digits_value(d) >= 0,
    decreases d.len(),
{
    if d.len() > 0 {
        let p = d.drop_last();
        assert(all_digits(p)) by {
            assert forall|j: int| 0 <= j < p.len() implies is_digit(#[trigger] p[j]) by {
                assert(p[j] == d[j]);
            }
        }
        lemma_digits_nonneg(p);
        assert(is_digit(d[d.len() - 1]));
    }
}

/// `w` and `lit` hold the same text.
pub fn text_is(w: &str, lit: &str) -> (r: bool)
    ensures
        r == (w@ == lit@),
{
    let n = w.unicode_len();
    if n != lit.unicode_len() {
        return false;
    }
    let mut i: usize = 0;
    while i < n
        invariant
            n == w@.len(),
            n == lit@.len(),
            i <= n,
            forall|k: int| 0 <= k < i ==> w@[k] == lit@[k],
        decreases n - i,
    {
        if w.get_char(i) != lit.get_char(i) {
            return false;
        }
        i = i + 1;
    }
    assert(w@ =~= lit@);
    true
}

/// Reads `w` as a signed 64-bit integer in base 10.
pub fn parse_i64(w: &str) -> (r: Option<i64>)
    ensures
        match r {
            Some(v) => int_literal(w@) == Some(v as int),
            None => int_literal(w@).is_none(),
        },
{
    let n = w.unicode_len();
    if n == 0 {
        return None;
    }
    let first = w.get_char(0);
    let negative = first == '-';
    let start: usize = if first == '-' || first == '+' {
        1
    } else {
        0
    };
    let ghost d = unsigned_part(w@);
    assert(d =~= w@.subrange(start as int, n as int));
    if start >= n {
        return None;
    }
    let mut acc: u64 = 0;
    let mut i: usize = start;
    while i < n
        invariant
            n == w@.len(),
            start <= i <= n,
            d == w@.subrange(start as int, n as int),
            d == unsigned_part(w@),
            negative == (w@[0] == '-'),
            all_digits(d.take(i - start)),
            acc == digits_value(d.take(i - start)),
            acc <= 0x8000_0000_0000_0000u64,
        decreases n - i,
    {
        let c = w.get_char(i);
        assert(c == d[i - start]);
        if !('0' <= c && c <= '9') {
            assert(!all_digits(d));
            return None;
        }
        let dv = (c as u32 - '0' as u32) as u64;
        let ghost t = d.take(i + 1 - start);
        assert(t.drop_last() =~= d.take(i - start));
        assert(t.last() == c);
        assert(all_digits(t));
        if acc > (0x8000_0000_0000_0000u64 - dv) / 10 {
            proof {
                if all_digits(d) {
                    lemma_digits_prefix(d, i + 1 - start);
                }
            }
            return None;
        }
        acc = acc * 10 + dv;
        i = i + 1;
    }
    assert(d.take(n - start) =~= d);
    if negative {
        if acc == 0x8000_0000_0000_0000u64 {
            Some(i64::MIN)
        } else {
            Some(-(acc as i64))
        }
    } else {
        if acc > 0x7fff_ffff_ffff_ffffu64 {
            None
        } else {
            Some(acc as i64)
        }
    }
}

/// Every character of `d` is a digit.
pub fn check_digits(d: &str) -> (r: bool)
    ensures
        r == all_digits(d@),
{
    let n = d.unicode_len();
    let mut i: usize = 0;
    while i < n
        invariant
            n == d@.len(),
            i <= n,
            forall|k: int| 0 <= k < i ==> is_digit(#[trigger] d@[k]),
        decreases n - i,
    {
        let c = d.get_char(i);
        if !('0' <= c && c <= '9') {
            return false;
        }
        i = i + 1;
    }
    true
}

/// `w` without its leading sign, if it has one.
pub fn strip_sign(w: &str) -> (r: &str)
    ensures
        r@ == unsigned_part(w@),
{
    let n = w.unicode_len();
    if n > 0 {
        let c = w.get_char(0);
        if c == '+' || c == '-' {
            let r = w.substring_char(1, n);
            assert(r@ =~= w@.drop_first());
            return r;
        }
    }
    let r = w.substring_char(0, n);
    assert(r@ =~= w@);
    r
}

/// Digits with at most one `.`, and at least one digit.
pub fn check_mantissa(m: &str) -> (r: bool)
    ensures
        r == is_mantissa(m@),
{
    let n = m.unicode_len();
    let mut dot_seen: bool = false;
    let mut digit_seen: bool = false;
    let ghost mut dot_at: int = 0;
    let ghost mut digit_at: int = 0;
    let mut i: usize = 0;
    while i < n
        invariant
            n == m@.len(),
            i <= n,
            forall|k: int| 0 <= k < i ==> is_digit(#[trigger] m@[k]) || m@[k] == '.',
            dot_seen ==> 0 <= dot_at < i && m@[dot_at] == '.',
            forall|k: int| 0 <= k < i && #[trigger] m@[k] == '.' ==> dot_seen && k == dot_at,
            digit_seen ==> 0 <= digit_at < i && is_digit(m@[digit_at]),
            !digit_seen ==> forall|k: int| 0 <= k < i ==> !is_digit(#[trigger] m@[k]),
        decreases n - i,
    {
        let c = m.get_char(i);
        if '0' <= c && c <= '9' {
            if !digit_seen {
                proof {
                    digit_at = i as int;
                }
            }
            digit_seen = true;
        } else if c == '.' {
            if dot_seen {
                assert(m@[dot_at] == '.' && m@[i as int] == '.');
                return false;
            }
            dot_seen = true;
            proof {
                dot_at = i as int;
            }
        } else {
            return false;
        }
        i = i + 1;
    }
    if !digit_seen {
        return false;
    }
    assert(is_digit(m@[digit_at]));
    true
}

/// An optional sign followed by one or more digits.
pub fn check_exponent(x: &str) -> (r: bool)
    ensures
        r == is_exponent(x@),
{
    let d = strip_sign(x);
    d.unicode_len() > 0 && check_digits(d)
}

/// `w` spells the word given by `lower` and `upper`, letter by letter in
/// either case.
pub fn check_letters(w: &str, lower: &str, upper: &str) -> (r: bool)
    ensures
        r == same_letters(w@, lower@, upper@),
{
    let n = w.unicode_len();
    if n != lower.unicode_len() || n != upper.unicode_len() {
        return false;
    }
    let mut i: usize = 0;
    while i < n
        invariant
            n == w@.len(),
            n == lower@.len(),
            n == upper@.len(),
            i <= n,
            forall|k: int| 0 <= k < i ==> #[trigger] w@[k] == lower@[k] || w@[k] == upper@[k],
        decreases n - i,
    {
        let c = w.get_char(i);
        if c != lower.get_char(i) && c != upper.get_char(i) {
            return false;
        }
        i = i + 1;
    }
    true
}

/// A mantissa, optionally followed by an exponent marker and an exponent.
pub fn check_decimal(b: &str) -> (r: bool)
    ensures
        r == is_decimal(b@),
{
    let n = b.unicode_len();
    let mut k: usize = 0;
    while k < n
        invariant
            n == b@.len(),
            k <= n,
            forall|j: int| 0 <= j < k ==> !is_exp_marker(#[trigger] b@[j]),
        decreases n - k,
    {
        let c = b.get_char(k);
        if c == 'e' || c == 'E' {
            let m = b.substring_char(0, k);
            let x = b.substring_char(k + 1, n);
            assert(m@ =~= b@.take(k as int));
            assert(x@ =~= b@.skip(k + 1));
            let r = check_mantissa(m) && check_exponent(x);
            assert(!is_mantissa(b@)) by {
                assert(!is_digit(b@[k as int]) && b@[k as int] != '.');
            }
            assert(r == is_decimal(b@)) by {
                if !r {
                    assert forall|j: int|
                        0 <= j < b@.len() && is_exp_marker(#[trigger] b@[j]) implies !(is_mantissa(
                        b@.take(j),
                    ) && is_exponent(b@.skip(j + 1))) by {
                        if j > k {
                            let t = b@.take(j);
                            assert(t[k as int] == b@[k as int]);
                            assert(!is_digit(t[k as int]) && t[k as int] != '.');
                        }
                    }
                }
            }
            return r;
        }
        k = k + 1;
    }
    check_mantissa(b)
}

/// `w` is a floating-point literal.
pub fn check_float_literal(w: &str) -> (r: bool)
    ensures
        r == is_float_literal(w@),
{
    let b = strip_sign(w);
    check_letters(b, "inf", "INF") || check_letters(b, "infinity", "INFINITY") || check_letters(
        b,
        "nan",
        "NAN",
    ) || check_decimal(b)
}

} // verus!

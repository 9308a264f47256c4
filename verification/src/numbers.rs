//! Reading the text of numeric literals: 64-bit integers and the syntax of
//! floating-point numbers.
use vstd::prelude::*;

verus! {

/// Whether `c` is a decimal digit.
pub open spec fn is_digit(c: char) -> bool {
    '0' <= c && c <= '9'
}

/// Whether `s` is one or more decimal digits.
pub open spec fn is_digits(s: Seq<char>) -> bool {
    s.len() > 0 && forall|i: int| 0 <= i < s.len() ==> is_digit(#[trigger] s[i])
}

/// The value of a string of decimal digits.
pub open spec fn digits_value(s: Seq<char>) -> int
    decreases s.len(),
{
    if s.len() == 0 {
        0
    } else {
        digits_value(s.drop_last()) * 10 + (s.last() as int - '0' as int)
    }
}

/// The value of `s` as a 64-bit integer: an optional sign `+` or `-`
/// followed by one or more decimal digits, whose value lies in the range of
/// `i64`; `None` for any other text.
pub open spec fn spec_parse_i64(s: Seq<char>) -> Option<i64> {
    let negative = s.len() > 0 && s[0] == '-';
    let digits = if s.len() > 0 && (s[0] == '-' || s[0] == '+') {
        s.skip(1)
    } else {
        s
    };
    let value = if negative {
        -digits_value(digits)
    } else {
        digits_value(digits)
    };
    if is_digits(digits) && i64::MIN <= value <= i64::MAX {
        Some(value as i64)
    } else {
        None
    }
}

/// A longer string of digits is worth at least as much as its prefixes.
proof fn lemma_digits_value_prefix(s: Seq<char>, k: int)
    requires
        0 <= k <= s.len(),
        forall|i: int| 0 <= i < s.len() ==> is_digit(#[trigger] s[i]),
    ensures
        0 <= digits_value(s.take(k)) <= digits_value(s),
    decreases s.len() - k,
{
    if k < s.len() {
        lemma_digits_value_prefix(s, k + 1);
        assert(s.take(k + 1).drop_last() =~= s.take(k));
        assert(is_digit(s[k]));
    } else {
        assert(s.take(k) =~= s);
        lemma_digits_value_nonneg(s);
    }
}

/// A string of digits is worth at least 0.
proof fn lemma_digits_value_nonneg(s: Seq<char>)
    requires
        forall|i: int| 0 <= i < s.len() ==> is_digit(#[trigger] s[i]),
    ensures
        digits_value(s) >= 0,
    decreases s.len(),
{
    if s.len() > 0 {
        assert(is_digit(s[s.len() - 1]));
        assert forall|i: int| 0 <= i < s.drop_last().len() implies is_digit(#[trigger] s.drop_last()[i]) by {
            assert(s.drop_last()[i] == s[i]);
        }
        lemma_digits_value_nonneg(s.drop_last());
    }
}

/// Reads `s` as a 64-bit integer, as `str::parse::<i64>` does: an optional
/// sign `+` or `-` followed by one or more decimal digits whose value lies
/// in the range of `i64`; `None` for any other text.
pub(crate) fn parse_i64(s: &str) -> (r: Option<i64>)
    ensures
        r == spec_parse_i64(s@),
{
    let chars = crate::text::chars_of(s);
    let n = chars.len();
    let negative = n > 0 && chars[0] == '-';
    let start: usize = if n > 0 && (chars[0] == '-' || chars[0] == '+') { 1 } else { 0 };
    let ghost digits = if s@.len() > 0 && (s@[0] == '-' || s@[0] == '+') { s@.skip(1) } else { s@ };
    assert(digits =~= s@.subrange(start as int, n as int));
    if start >= n {
        return None;
    }
    let limit: u128 = 9223372036854775808;
    let mut acc: u128 = 0;
    let mut i: usize = start;
    assert(digits.take(0) =~= Seq::<char>::empty());
    while i < n
        invariant
            start <= i <= n,
            n == chars@.len(),
            chars@ == s@,
            digits =~= s@.subrange(start as int, n as int),
            digits == (if s@.len() > 0 && (s@[0] == '-' || s@[0] == '+') { s@.skip(1) } else { s@ }),
            negative == (s@.len() > 0 && s@[0] == '-'),
            acc as int == digits_value(digits.take(i - start)),
            acc <= limit,
            limit == 9223372036854775808,
            forall|k: int| 0 <= k < i - start ==> is_digit(#[trigger] digits[k]),
        decreases n - i,
    {
        let c = chars[i];
        if !('0' <= c && c <= '9') {
            assert(!is_digit(digits[i - start]));
            assert(!is_digits(digits));
            assert(spec_parse_i64(s@) is None);
            return None;
        }
        let d = (c as u32 - '0' as u32) as u128;
        proof {
            assert(digits.take(i - start + 1).drop_last() =~= digits.take(i - start));
            assert(digits.take(i - start + 1).last() == c);
        }
        acc = acc * 10 + d;
        i = i + 1;
        assert(acc as int == digits_value(digits.take(i - start)));
        if acc > limit {
            proof {
                if is_digits(digits) {
                    lemma_digits_value_prefix(digits, i - start);
                    assert(digits_value(digits) > 9223372036854775808);
                }
            }
            assert(spec_parse_i64(s@) is None);
            return None;
        }
    }
    proof {
        assert(digits.take(n - start) =~= digits);
    }
    if negative {
        Some((0 - (acc as i128)) as i64)
    } else if acc == limit {
        None
    } else {
        Some(acc as i64)
    }
}

/// `c` in lower case, for the letters A to Z.
pub open spec fn ascii_lower(c: char) -> char {
    if 'A' <= c && c <= 'Z' {
        ((c as int) + 32) as char
    } else {
        c
    }
}

/// Whether `s` is one or more digits, with an optional sign in front.
pub open spec fn is_signed_digits(s: Seq<char>) -> bool {
    if s.len() > 0 && (s[0] == '+' || s[0] == '-') {
        is_digits(s.skip(1))
    } else {
        is_digits(s)
    }
}

/// Whether `m` is digits with at most one point among them and at least
/// one digit.
pub open spec fn is_mantissa(m: Seq<char>) -> bool {
    &&& forall|i: int| 0 <= i < m.len() ==> is_digit(#[trigger] m[i]) || m[i] == '.'
    &&& forall|i: int, j: int| #![trigger m[i], m[j]] 0 <= i < j < m.len() && m[i] == '.' ==> m[j] != '.'
    &&& exists|i: int| 0 <= i < m.len() && is_digit(#[trigger] m[i])
}

/// Whether `s` (in lower case) is a number: a mantissa, optionally followed
/// by `e`, an optional sign and digits.
pub open spec fn is_decimal_number(s: Seq<char>) -> bool {
    ||| is_mantissa(s)
    ||| exists|k: int| 0 <= k < s.len() && #[trigger] s[k] == 'e' && is_mantissa(s.take(k))
        && is_signed_digits(s.skip(k + 1))
}

/// Whether `s` is text that `str::parse` reads as a floating-point number,
/// by the grammar its documentation gives: an optional sign
/// followed by `inf`, `infinity`, `nan` or a decimal number, letters in any
/// case.
pub open spec fn spec_is_float_text(s: Seq<char>) -> bool {
    let l = s.map_values(|c: char| ascii_lower(c));
    let body = if l.len() > 0 && (l[0] == '+' || l[0] == '-') {
        l.skip(1)
    } else {
        l
    };
    ||| body == "inf"@
    ||| body == "infinity"@
    ||| body == "nan"@
    ||| is_decimal_number(body)
}

fn is_digit_char(c: char) -> (r: bool)
    ensures
        r == is_digit(c),
{
    '0' <= c && c <= '9'
}

/// Whether `s[from..to]` is one or more digits.
pub(crate) fn digits_in(s: &Vec<char>, from: usize, to: usize) -> (r: bool)
    requires
        from <= to <= s@.len(),
    ensures
        r == is_digits(s@.subrange(from as int, to as int)),
{
    if from == to {
        return false;
    }
    let mut i = from;
    while i < to
        invariant
            from <= i <= to <= s@.len(),
            forall|k: int| from <= k < i ==> is_digit(#[trigger] s@[k]),
        decreases to - i,
    {
        if !is_digit_char(s[i]) {
            assert(!is_digit(s@.subrange(from as int, to as int)[i - from]));
            return false;
        }
        i = i + 1;
    }
    assert forall|k: int| 0 <= k < to - from implies is_digit(
        #[trigger] s@.subrange(from as int, to as int)[k],
    ) by {
        assert(s@.subrange(from as int, to as int)[k] == s@[from + k]);
    }
    true
}

/// Whether `s[from..to]` is one or more digits with an optional sign in front.
pub(crate) fn signed_digits_in(s: &Vec<char>, from: usize, to: usize) -> (r: bool)
    requires
        from <= to <= s@.len(),
    ensures
        r == is_signed_digits(s@.subrange(from as int, to as int)),
{
    let ghost t = s@.subrange(from as int, to as int);
    if from < to && (s[from] == '+' || s[from] == '-') {
        assert(t.skip(1) =~= s@.subrange(from + 1, to as int));
        digits_in(s, from + 1, to)
    } else {
        digits_in(s, from, to)
    }
}

/// Whether `s[from..to]` is a mantissa.
pub(crate) fn mantissa_in(s: &Vec<char>, from: usize, to: usize) -> (r: bool)
    requires
        from <= to <= s@.len(),
    ensures
        r == is_mantissa(s@.subrange(from as int, to as int)),
{
    let ghost m = s@.subrange(from as int, to as int);
    let mut i = from;
    let mut seen_point = false;
    let mut seen_digit = false;
    while i < to
        invariant
            from <= i <= to <= s@.len(),
            m == s@.subrange(from as int, to as int),
            forall|k: int| 0 <= k < i - from ==> is_digit(#[trigger] m[k]) || m[k] == '.',
            seen_point <==> exists|k: int| 0 <= k < i - from && #[trigger] m[k] == '.',
            forall|a: int, b: int| #![trigger m[a], m[b]] 0 <= a < b < i - from && m[a] == '.' ==> m[b] != '.',
            seen_digit <==> exists|k: int| 0 <= k < i - from && is_digit(#[trigger] m[k]),
        decreases to - i,
    {
        let c = s[i];
        assert(m[i - from] == c);
        if c == '.' {
            if seen_point {
                proof {
                    let k = choose|k: int| 0 <= k < i - from && #[trigger] m[k] == '.';
                    assert(m[k] == '.' && m[i - from] == '.');
                }
                return false;
            }
            seen_point = true;
        } else if is_digit_char(c) {
            seen_digit = true;
        } else {
            return false;
        }
        i = i + 1;
    }
    seen_digit
}

/// `s` with the letters A to Z in lower case.
fn ascii_lowered(s: &str) -> (l: Vec<char>)
    ensures
        l@ == s@.map_values(|c: char| ascii_lower(c)),
{
    let chars = crate::text::chars_of(s);
    let mut l: Vec<char> = Vec::new();
    let mut i: usize = 0;
    while i < chars.len()
        invariant
            i <= chars@.len(),
            chars@ == s@,
            l@ == s@.take(i as int).map_values(|c: char| ascii_lower(c)),
        decreases chars@.len() - i,
    {
        let c = chars[i];
        let lc = if 'A' <= c && c <= 'Z' {
            char_plus_32(c)
        } else {
            c
        };
        l.push(lc);
        i = i + 1;
        assert(l@ =~= s@.take(i as int).map_values(|c: char| ascii_lower(c)));
    }
    assert(s@.take(s@.len() as int) =~= s@);
    l
}

/// Whether `l[from..]` is a decimal number.
fn decimal_number_in(l: &Vec<char>, from: usize) -> (r: bool)
    requires
        from <= l@.len(),
    ensures
        r == is_decimal_number(l@.subrange(from as int, l@.len() as int)),
{
    let ghost body = l@.subrange(from as int, l@.len() as int);
    let mut k = from;
    while k < l.len() && l[k] != 'e'
        invariant
            from <= k <= l@.len(),
            forall|j: int| from <= j < k ==> #[trigger] l@[j] != 'e',
        decreases l@.len() - k,
    {
        k = k + 1;
    }
    if k == l.len() {
        assert(body =~= l@.subrange(from as int, k as int));
        let r = mantissa_in(l, from, k);
        proof {
            if exists|j: int| 0 <= j < body.len() && #[trigger] body[j] == 'e' && is_mantissa(body.take(j))
                && is_signed_digits(body.skip(j + 1)) {
                let j = choose|j: int| 0 <= j < body.len() && #[trigger] body[j] == 'e' && is_mantissa(body.take(j))
                    && is_signed_digits(body.skip(j + 1));
                assert(l@[from + j] == 'e');
            }
        }
        r
    } else {
        let m = mantissa_in(l, from, k);
        let e = signed_digits_in(l, k + 1, l.len());
        proof {
            let kk = k - from;
            assert(body[kk] == l@[k as int]);
            assert(body.take(kk) =~= l@.subrange(from as int, k as int));
            assert(body.skip(kk + 1) =~= l@.subrange(k + 1, l@.len() as int));
            if is_mantissa(body) {
                assert(!(is_digit(body[kk]) || body[kk] == '.'));
            }
            if exists|j: int| 0 <= j < body.len() && #[trigger] body[j] == 'e' && is_mantissa(body.take(j))
                && is_signed_digits(body.skip(j + 1)) {
                let j = choose|j: int| 0 <= j < body.len() && #[trigger] body[j] == 'e' && is_mantissa(body.take(j))
                    && is_signed_digits(body.skip(j + 1));
                if j < kk {
                    assert(l@[from + j] == 'e');
                } else if j > kk {
                    assert(body.take(j)[kk] == 'e');
                }
            }
        }
        m && e
    }
}

/// Whether `s` is text that `str::parse` reads as a floating-point number:
/// the grammar `spec_is_float_text`.
pub fn is_float_text(s: &str) -> (r: bool)
    ensures
        r == spec_is_float_text(s@),
{
    let l = ascii_lowered(s);
    let ghost low = s@.map_values(|c: char| ascii_lower(c));
    let from: usize = if l.len() > 0 && (l[0] == '+' || l[0] == '-') {
        1
    } else {
        0
    };
    let ghost body = if low.len() > 0 && (low[0] == '+' || low[0] == '-') {
        low.skip(1)
    } else {
        low
    };
    assert(body =~= l@.subrange(from as int, l@.len() as int));
    if is_word(&l, from, "inf") || is_word(&l, from, "infinity") || is_word(&l, from, "nan") {
        return true;
    }
    decimal_number_in(&l, from)
}

fn char_plus_32(c: char) -> (r: char)
    requires
        'A' <= c && c <= 'Z',
    ensures
        r == ((c as int) + 32) as char,
{
    match c {
        'A' => 'a',
        'B' => 'b',
        'C' => 'c',
        'D' => 'd',
        'E' => 'e',
        'F' => 'f',
        'G' => 'g',
        'H' => 'h',
        'I' => 'i',
        'J' => 'j',
        'K' => 'k',
        'L' => 'l',
        'M' => 'm',
        'N' => 'n',
        'O' => 'o',
        'P' => 'p',
        'Q' => 'q',
        'R' => 'r',
        'S' => 's',
        'T' => 't',
        'U' => 'u',
        'V' => 'v',
        'W' => 'w',
        'X' => 'x',
        'Y' => 'y',
        'Z' => 'z',
        _ => c,
    }
}

/// Whether `s[from..]` is exactly `w`.
fn is_word(s: &Vec<char>, from: usize, w: &str) -> (r: bool)
    requires
        from <= s@.len(),
    ensures
        r == (s@.subrange(from as int, s@.len() as int) == w@),
{
    let wc = crate::text::chars_of(w);
    if s.len() - from != wc.len() {
        return false;
    }
    let mut i: usize = 0;
    while i < wc.len()
        invariant
            i <= wc@.len(),
            wc@ == w@,
            from + wc@.len() == s@.len(),
            s@.len() <= usize::MAX,
            forall|k: int| 0 <= k < i ==> s@[from + k] == wc@[k],
        decreases wc@.len() - i,
    {
        if s[from + i] != wc[i] {
            assert(s@.subrange(from as int, s@.len() as int)[i as int] != w@[i as int]);
            return false;
        }
        i = i + 1;
    }
    assert(s@.subrange(from as int, s@.len() as int) =~= w@);
    true
}

} // verus!

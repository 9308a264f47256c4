//! Whether the value a decimal float literal denotes lies within the range
//! of a float type: its magnitude compared, exactly, with the largest
//! finite value of the type, by the digits alone.
use vstd::prelude::*;
use crate::numbers::{
    digits_value, is_digit, is_digits, is_mantissa, is_signed_digits, mantissa_in, signed_digits_in,
};
use crate::text::chars_of;

verus! {

/// Ten to the power `n`.
pub open spec fn pow10(n: nat) -> nat
    decreases n,
{
    if n == 0 {
        1
    } else {
        10 * pow10((n - 1) as nat)
    }
}

/// Powers of ten multiply by adding exponents.
proof fn lemma_pow10_adds(a: nat, b: nat)
    ensures
        pow10(a + b) == pow10(a) * pow10(b),
    decreases a,
{
    if a > 0 {
        let a1 = (a - 1) as nat;
        lemma_pow10_adds(a1, b);
        assert((a + b) as nat == (a1 + b) as nat + 1);
        assert(pow10(a + b) == 10 * pow10((a1 + b) as nat));
        assert(pow10(a) == 10 * pow10(a1));
        let x = pow10(a1);
        let y = pow10(b);
        assert(10 * (x * y) == (10 * x) * y) by (nonlinear_arith);
    } else {
        assert(pow10(0) == 1);
        assert(a + b == b);
    }
}

/// Powers of ten are positive.
proof fn lemma_pow10_positive(n: nat)
    ensures
        pow10(n) >= 1,
    decreases n,
{
    if n > 0 {
        lemma_pow10_positive((n - 1) as nat);
    }
}

/// Powers of ten grow with the exponent.
proof fn lemma_pow10_grows(a: nat, b: nat)
    requires
        a <= b,
    ensures
        pow10(a) <= pow10(b),
        a < b ==> pow10(a) < pow10(b),
    decreases b - a,
{
    lemma_pow10_positive(a);
    if a < b {
        lemma_pow10_grows(a, (b - 1) as nat);
        lemma_pow10_positive((b - 1) as nat);
    }
}

/// A string of `m` zeros.
pub open spec fn zeros(m: nat) -> Seq<char> {
    Seq::new(m, |i: int| '0')
}

/// Whether every character of `s` is a decimal digit.
pub open spec fn all_digits(s: Seq<char>) -> bool {
    forall|i: int| 0 <= i < s.len() ==> is_digit(#[trigger] s[i])
}

/// The value of digits followed by more digits.
proof fn lemma_digits_value_concat(a: Seq<char>, b: Seq<char>)
    ensures
        digits_value(a + b) == digits_value(a) * pow10(b.len()) + digits_value(b),
    decreases b.len(),
{
    if b.len() == 0 {
        assert(a + b =~= a);
        assert(pow10(0) == 1);
        assert(digits_value(b) == 0);
        assert(digits_value(a) * 1 == digits_value(a));
    } else {
        let b1 = b.drop_last();
        lemma_digits_value_concat(a, b1);
        assert((a + b).drop_last() =~= a + b1);
        assert((a + b).last() == b.last());
        assert(digits_value(a + b) == digits_value(a + b1) * 10 + (b.last() as int - '0' as int));
        assert(digits_value(b) == digits_value(b1) * 10 + (b.last() as int - '0' as int));
        assert(pow10(b.len()) == 10 * pow10(b1.len()));
        let x = digits_value(a);
        let p = pow10(b1.len());
        let y = digits_value(b1);
        let d = b.last() as int - '0' as int;
        assert((x * p + y) * 10 + d == x * (10 * p) + (y * 10 + d)) by (nonlinear_arith);
    }
}

/// Zeros have the value zero.
proof fn lemma_zeros_value(m: nat)
    ensures
        digits_value(zeros(m)) == 0,
    decreases m,
{
    if m > 0 {
        assert(zeros(m).drop_last() =~= zeros((m - 1) as nat));
        lemma_zeros_value((m - 1) as nat);
    }
}

/// Digits are worth less than ten to the power of their number.
proof fn lemma_digits_value_bounds(s: Seq<char>)
    requires
        all_digits(s),
    ensures
        0 <= digits_value(s) < pow10(s.len()),
    decreases s.len(),
{
    if s.len() > 0 {
        let s1 = s.drop_last();
        assert(all_digits(s1)) by {
            assert forall|i: int| 0 <= i < s1.len() implies is_digit(#[trigger] s1[i]) by {
                assert(s1[i] == s[i]);
            }
        }
        lemma_digits_value_bounds(s1);
        assert(is_digit(s[s.len() - 1]));
        let v = digits_value(s1);
        let p = pow10(s1.len());
        let d = s.last() as int - '0' as int;
        assert(0 <= d <= 9);
        assert(v * 10 + d < 10 * p) by (nonlinear_arith)
            requires
                0 <= v < p,
                0 <= d <= 9,
        ;
    }
}

/// The value of a single digit.
proof fn lemma_single_digit_value(c: char)
    ensures
        digits_value(seq![c]) == c as int - '0' as int,
{
    assert(seq![c].drop_last() =~= Seq::<char>::empty());
    assert(seq![c].last() == c);
    assert(digits_value(seq![c]) == digits_value(Seq::<char>::empty()) * 10 + (c as int - '0' as int));
}

/// Digits that do not start with zero are worth at least ten to the power
/// of their number less one.
proof fn lemma_digits_value_lower(s: Seq<char>)
    requires
        all_digits(s),
        s.len() >= 1,
        s[0] != '0',
    ensures
        digits_value(s) >= pow10((s.len() - 1) as nat),
{
    let rest = s.skip(1);
    assert(seq![s[0]] + rest =~= s);
    lemma_digits_value_concat(seq![s[0]], rest);
    lemma_single_digit_value(s[0]);
    assert(all_digits(rest)) by {
        assert forall|i: int| 0 <= i < rest.len() implies is_digit(#[trigger] rest[i]) by {
            assert(rest[i] == s[i + 1]);
        }
    }
    lemma_digits_value_bounds(rest);
    assert(is_digit(s[0]));
    let d = s[0] as int - '0' as int;
    let p = pow10(rest.len());
    assert(d * p >= p) by (nonlinear_arith)
        requires
            d >= 1,
            p >= 0,
    ;
}

/// Whether `p` comes no later than `q` in dictionary order (for strings of
/// the same length).
pub open spec fn lex_le(p: Seq<char>, q: Seq<char>) -> bool
    decreases p.len(),
{
    if p.len() == 0 || q.len() == 0 {
        true
    } else if p[0] < q[0] {
        true
    } else if p[0] > q[0] {
        false
    } else {
        lex_le(p.skip(1), q.skip(1))
    }
}

/// Digits of the same number compare by value as they do in dictionary
/// order.
proof fn lemma_lex_le_value(p: Seq<char>, q: Seq<char>)
    requires
        all_digits(p),
        all_digits(q),
        p.len() == q.len(),
    ensures
        lex_le(p, q) <==> digits_value(p) <= digits_value(q),
    decreases p.len(),
{
    if p.len() > 0 {
        let p1 = p.skip(1);
        let q1 = q.skip(1);
        assert(seq![p[0]] + p1 =~= p);
        assert(seq![q[0]] + q1 =~= q);
        lemma_digits_value_concat(seq![p[0]], p1);
        lemma_digits_value_concat(seq![q[0]], q1);
        lemma_single_digit_value(p[0]);
        lemma_single_digit_value(q[0]);
        assert(all_digits(p1)) by {
            assert forall|i: int| 0 <= i < p1.len() implies is_digit(#[trigger] p1[i]) by {
                assert(p1[i] == p[i + 1]);
            }
        }
        assert(all_digits(q1)) by {
            assert forall|i: int| 0 <= i < q1.len() implies is_digit(#[trigger] q1[i]) by {
                assert(q1[i] == q[i + 1]);
            }
        }
        lemma_digits_value_bounds(p1);
        lemma_digits_value_bounds(q1);
        lemma_lex_le_value(p1, q1);
        assert(is_digit(p[0]) && is_digit(q[0]));
        let dp = p[0] as int - '0' as int;
        let dq = q[0] as int - '0' as int;
        let m = pow10(p1.len());
        let vp = digits_value(p1);
        let vq = digits_value(q1);
        if dp < dq {
            assert(dp * m + vp < dq * m + vq) by (nonlinear_arith)
                requires
                    dp < dq,
                    0 <= vp < m,
                    0 <= vq,
            ;
        } else if dp > dq {
            assert(dp * m + vp > dq * m + vq) by (nonlinear_arith)
                requires
                    dp > dq,
                    0 <= vq < m,
                    0 <= vp,
            ;
        }
    }
}

/// Digits that do not start with zero, followed by `k` zeros, against
/// the digits of a bound followed by `j` zeros: the first number is no
/// larger when it has fewer digits, or as many and comes no later in
/// dictionary order.
proof fn lemma_scaled_comparison(d: Seq<char>, k: nat, b: Seq<char>, j: nat)
    requires
        all_digits(d),
        all_digits(b),
        d.len() >= 1,
        b.len() >= 1,
        d[0] != '0',
        b[0] != '0',
    ensures
        digits_value(d) * pow10(k) <= digits_value(b) * pow10(j) <==> (d.len() + k < b.len() + j || (d.len() + k
            == b.len() + j && lex_le(d + zeros(k), b + zeros(j)))),
{
    let p = d + zeros(k);
    let q = b + zeros(j);
    lemma_digits_value_concat(d, zeros(k));
    lemma_digits_value_concat(b, zeros(j));
    lemma_zeros_value(k);
    lemma_zeros_value(j);
    assert(all_digits(p)) by {
        assert forall|i: int| 0 <= i < p.len() implies is_digit(#[trigger] p[i]) by {
            if i < d.len() {
                assert(p[i] == d[i]);
            } else {
                assert(p[i] == '0');
            }
        }
    }
    assert(all_digits(q)) by {
        assert forall|i: int| 0 <= i < q.len() implies is_digit(#[trigger] q[i]) by {
            if i < b.len() {
                assert(q[i] == b[i]);
            } else {
                assert(q[i] == '0');
            }
        }
    }
    assert(p[0] == d[0]);
    assert(q[0] == b[0]);
    lemma_digits_value_bounds(p);
    lemma_digits_value_bounds(q);
    lemma_digits_value_lower(p);
    lemma_digits_value_lower(q);
    if p.len() < q.len() {
        lemma_pow10_grows(p.len(), (q.len() - 1) as nat);
    } else if p.len() > q.len() {
        lemma_pow10_grows(q.len(), (p.len() - 1) as nat);
    } else {
        lemma_lex_le_value(p, q);
    }
}

/// The length of the sign in front of `t`: one for `+` or `-`, else zero.
pub open spec fn sign_len(t: Seq<char>) -> int {
    if t.len() > 0 && (t[0] == '+' || t[0] == '-') {
        1
    } else {
        0
    }
}

/// The index of the first exponent mark, `e` or `E`, of `t` at or after
/// `from`; the length of `t` when there is none.
pub open spec fn exponent_mark(t: Seq<char>, from: int) -> int
    decreases t.len() - from,
{
    if from < 0 || from >= t.len() {
        t.len() as int
    } else if t[from] == 'e' || t[from] == 'E' {
        from
    } else {
        exponent_mark(t, from + 1)
    }
}

/// The index of the first point of `m` at or after `from`; the length of
/// `m` when there is none.
pub open spec fn point_index(m: Seq<char>, from: int) -> int
    decreases m.len() - from,
{
    if from < 0 || from >= m.len() {
        m.len() as int
    } else if m[from] == '.' {
        from
    } else {
        point_index(m, from + 1)
    }
}

/// The digits of a mantissa, without its point.
pub open spec fn mantissa_digits(m: Seq<char>) -> Seq<char>
    decreases m.len(),
{
    if m.len() == 0 {
        Seq::empty()
    } else if m.last() == '.' {
        mantissa_digits(m.drop_last())
    } else {
        mantissa_digits(m.drop_last()).push(m.last())
    }
}

/// The number of digits of a mantissa after its point.
pub open spec fn fraction_len(m: Seq<char>) -> int {
    if point_index(m, 0) < m.len() {
        m.len() - point_index(m, 0) - 1
    } else {
        0
    }
}

/// The value of digits with an optional sign in front.
pub open spec fn signed_digits_value(s: Seq<char>) -> int {
    if s.len() > 0 && s[0] == '-' {
        -digits_value(s.skip(1))
    } else if s.len() > 0 && s[0] == '+' {
        digits_value(s.skip(1))
    } else {
        digits_value(s)
    }
}

/// The parts of a decimal float text — an optional sign, a mantissa, and
/// optionally `e` or `E` with an exponent: the digits of the mantissa, how
/// many of them follow its point, and the exponent (zero when absent).
/// The value of the text is then the digits, read as an integer, times ten
/// to the power of the exponent less that number.
pub open spec fn decimal_parts(t: Seq<char>) -> Option<(Seq<char>, int, int)> {
    let sl = sign_len(t);
    let e = exponent_mark(t, sl);
    let m = t.subrange(sl, e);
    if is_mantissa(m) && (e == t.len() || is_signed_digits(t.subrange(e + 1, t.len() as int))) {
        Some(
            (
                mantissa_digits(m),
                fraction_len(m),
                if e == t.len() {
                    0
                } else {
                    signed_digits_value(t.subrange(e + 1, t.len() as int))
                },
            ),
        )
    } else {
        None
    }
}

/// `k` when positive, else zero.
pub open spec fn positive_part(k: int) -> nat {
    if k > 0 {
        k as nat
    } else {
        0
    }
}

/// Whether `b` spells a positive integer without leading zero.
pub open spec fn valid_bound(b: Seq<char>) -> bool {
    all_digits(b) && b.len() >= 1 && b[0] != '0'
}

/// Whether the decimal float text `t` denotes a value whose magnitude is
/// at most the integer that `bound` spells: the digits times ten to the
/// power of the exponent less the fraction length, compared exactly. A
/// text that is no decimal number (such as `inf` or `nan`) lies within no
/// bound.
pub open spec fn text_within(t: Seq<char>, bound: Seq<char>) -> bool {
    valid_bound(bound) && match decimal_parts(t) {
        Some(parts) => {
            let k = parts.2 - parts.1;
            digits_value(parts.0) * pow10(positive_part(k)) <= digits_value(bound) * pow10(positive_part(-k))
        },
        None => false,
    }
}

/// Whether `b` spells a positive integer without leading zero.
fn is_valid_bound(b: &Vec<char>) -> (r: bool)
    ensures
        r == valid_bound(b@),
{
    if b.len() == 0 || b[0] == '0' {
        return false;
    }
    let mut i: usize = 0;
    while i < b.len()
        invariant
            i <= b@.len(),
            forall|k: int| 0 <= k < i ==> is_digit(#[trigger] b@[k]),
        decreases b@.len() - i,
    {
        if !('0' <= b[i] && b[i] <= '9') {
            return false;
        }
        i = i + 1;
    }
    true
}

/// Leading zeros do not change the value of digits.
proof fn lemma_leading_zeros(d: Seq<char>, z: int)
    requires
        0 <= z <= d.len(),
        forall|j: int| 0 <= j < z ==> #[trigger] d[j] == '0',
    ensures
        digits_value(d) == digits_value(d.skip(z)),
{
    let zs = d.take(z);
    assert(zs =~= zeros(z as nat));
    assert(zs + d.skip(z) =~= d);
    lemma_digits_value_concat(zs, d.skip(z));
    lemma_zeros_value(z as nat);
}

/// The first exponent mark found from a later start is the first from an
/// earlier start that passed no mark.
proof fn lemma_exponent_mark_from(t: Seq<char>, a: int, b: int)
    requires
        0 <= a <= b <= t.len(),
        forall|j: int| a <= j < b ==> !(#[trigger] t[j] == 'e' || t[j] == 'E'),
    ensures
        exponent_mark(t, a) == exponent_mark(t, b),
    decreases b - a,
{
    if a < b {
        lemma_exponent_mark_from(t, a + 1, b);
    }
}

/// The first point found from a later start is the first from an earlier
/// start that passed no point.
proof fn lemma_point_index_from(m: Seq<char>, a: int, b: int)
    requires
        0 <= a <= b <= m.len(),
        forall|j: int| a <= j < b ==> #[trigger] m[j] != '.',
    ensures
        point_index(m, a) == point_index(m, b),
    decreases b - a,
{
    if a < b {
        lemma_point_index_from(m, a + 1, b);
    }
}

/// The mantissa digits are digits.
proof fn lemma_mantissa_digits_are_digits(m: Seq<char>)
    requires
        forall|i: int| 0 <= i < m.len() ==> is_digit(#[trigger] m[i]) || m[i] == '.',
    ensures
        all_digits(mantissa_digits(m)),
    decreases m.len(),
{
    if m.len() > 0 {
        let m1 = m.drop_last();
        assert forall|i: int| 0 <= i < m1.len() implies is_digit(#[trigger] m1[i]) || m1[i] == '.' by {
            assert(m1[i] == m[i]);
        }
        lemma_mantissa_digits_are_digits(m1);
        assert(is_digit(m[m.len() - 1]) || m[m.len() - 1] == '.');
    }
}

/// The exponent magnitudes beyond which the comparison is decided.
pub open spec fn exponent_cap() -> int {
    36893488147419103232
}

/// The value of a decimal digit.
fn digit_value(c: char) -> (d: i128)
    requires
        is_digit(c),
    ensures
        d == c as int - '0' as int,
{
    match c {
        '0' => 0,
        '1' => 1,
        '2' => 2,
        '3' => 3,
        '4' => 4,
        '5' => 5,
        '6' => 6,
        '7' => 7,
        '8' => 8,
        _ => 9,
    }
}

/// The sign and the magnitude of the signed digits `t[from..to]`; the
/// magnitude is exact below the cap, and at least the cap otherwise.
fn exponent_value(t: &Vec<char>, from: usize, to: usize) -> (r: (bool, i128))
    requires
        from <= to <= t@.len(),
        is_signed_digits(t@.subrange(from as int, to as int)),
    ensures
        ({
            let s = t@.subrange(from as int, to as int);
            let digits = if s[0] == '+' || s[0] == '-' {
                s.skip(1)
            } else {
                s
            };
            &&& r.0 == (s[0] == '-')
            &&& 0 <= r.1 < 10 * exponent_cap()
            &&& digits_value(digits) >= 0
            &&& digits_value(digits) < exponent_cap() ==> r.1 == digits_value(digits)
            &&& digits_value(digits) >= exponent_cap() ==> r.1 >= exponent_cap()
            &&& signed_digits_value(s) == if r.0 {
                -digits_value(digits)
            } else {
                digits_value(digits)
            }
        }),
{
    let ghost s = t@.subrange(from as int, to as int);
    let signed = t[from] == '+' || t[from] == '-';
    let neg = t[from] == '-';
    let start = if signed {
        from + 1
    } else {
        from
    };
    let ghost digits = t@.subrange(start as int, to as int);
    assert(s[0] == t@[from as int]);
    assert(digits =~= if s[0] == '+' || s[0] == '-' {
        s.skip(1)
    } else {
        s
    });
    assert(is_digits(digits));
    let cap: i128 = 36893488147419103232;
    let mut mag: i128 = 0;
    let mut j = start;
    assert(t@.subrange(start as int, start as int) =~= Seq::<char>::empty());
    while j < to
        invariant
            start <= j <= to <= t@.len(),
            digits == t@.subrange(start as int, to as int),
            is_digits(digits),
            cap == exponent_cap(),
            0 <= mag < 10 * cap,
            digits_value(t@.subrange(start as int, j as int)) >= 0,
            digits_value(t@.subrange(start as int, j as int)) < cap ==> mag == digits_value(
                t@.subrange(start as int, j as int),
            ),
            digits_value(t@.subrange(start as int, j as int)) >= cap ==> mag >= cap,
        decreases to - j,
    {
        let c = t[j];
        assert(digits[j - start] == c);
        let d = digit_value(c);
        let ghost before = t@.subrange(start as int, j as int);
        assert(t@.subrange(start as int, j + 1).drop_last() =~= before);
        assert(t@.subrange(start as int, j + 1).last() == c);
        assert(digits_value(t@.subrange(start as int, j + 1)) == digits_value(before) * 10 + d);
        if mag < cap {
            mag = mag * 10 + d;
        }
        j = j + 1;
    }
    (neg, mag)
}

/// Whether the digits of `d` from `z` on followed by `kp` zeros come no
/// later in dictionary order than the digits of `b` followed by `kq`
/// zeros, the two being equally long.
fn lex_le_padded(d: &Vec<char>, z: usize, kp: usize, b: &Vec<char>, kq: usize) -> (r: bool)
    requires
        z <= d@.len(),
        d@.len() - z + kp == b@.len() + kq,
        d@.len() - z + kp <= usize::MAX,
    ensures
        r == lex_le(d@.skip(z as int) + zeros(kp as nat), b@ + zeros(kq as nat)),
{
    let ghost pp = d@.skip(z as int) + zeros(kp as nat);
    let ghost qq = b@ + zeros(kq as nat);
    let dlen = d.len();
    let n = dlen - z;
    let big_n: usize = n + kp;
    let mut i: usize = 0;
    assert(pp.skip(0) =~= pp);
    assert(qq.skip(0) =~= qq);
    while i < big_n
        invariant
            z <= d@.len(),
            d@.len() == dlen,
            i <= big_n,
            big_n == n + kp,
            n == d@.len() - z,
            pp.len() == big_n,
            qq.len() == big_n,
            pp == d@.skip(z as int) + zeros(kp as nat),
            qq == b@ + zeros(kq as nat),
            lex_le(pp, qq) == lex_le(pp.skip(i as int), qq.skip(i as int)),
        decreases big_n - i,
    {
        let pc = if i < n {
            d[z + i]
        } else {
            '0'
        };
        let qc = if i < b.len() {
            b[i]
        } else {
            '0'
        };
        assert(pc == pp[i as int]);
        assert(qc == qq[i as int]);
        assert(pp.skip(i as int)[0] == pp[i as int]);
        assert(qq.skip(i as int)[0] == qq[i as int]);
        assert(pp.skip(i as int).skip(1) =~= pp.skip(i + 1));
        assert(qq.skip(i as int).skip(1) =~= qq.skip(i + 1));
        if pc < qc {
            return true;
        }
        if pc > qc {
            return false;
        }
        i = i + 1;
    }
    assert(pp.skip(big_n as int).len() == 0);
    true
}

/// The digits of the mantissa `t[sl..e]`, and the index of its first
/// point (`e` when it has none).
fn mantissa_parts(t: &Vec<char>, sl: usize, e: usize) -> (r: (Vec<char>, usize))
    requires
        sl <= e <= t@.len(),
    ensures
        r.0@ == mantissa_digits(t@.subrange(sl as int, e as int)),
        sl <= r.1 <= e,
        r.1 - sl == point_index(t@.subrange(sl as int, e as int), 0),
{
    let ghost m = t@.subrange(sl as int, e as int);
    let mut d: Vec<char> = Vec::new();
    let mut pi: usize = e;
    let mut j = sl;
    assert(m.take(0) =~= Seq::<char>::empty());
    while j < e
        invariant
            sl <= j <= e <= t@.len(),
            m == t@.subrange(sl as int, e as int),
            d@ == mantissa_digits(m.take(j - sl)),
            (pi == e && forall|q: int| sl <= q < j ==> #[trigger] t@[q] != '.') || (sl <= pi < j && t@[pi as int] == '.'
                && forall|q: int| sl <= q < pi ==> #[trigger] t@[q] != '.'),
        decreases e - j,
    {
        let c = t[j];
        assert(m.take(j + 1 - sl).drop_last() =~= m.take(j - sl));
        assert(m.take(j + 1 - sl).last() == c);
        if c == '.' {
            if pi == e {
                pi = j;
            }
        } else {
            d.push(c);
        }
        j = j + 1;
    }
    assert(m.take(m.len() as int) =~= m);
    proof {
        assert forall|q: int| 0 <= q < pi - sl implies #[trigger] m[q] != '.' by {
            assert(m[q] == t@[sl + q]);
        }
        lemma_point_index_from(m, 0, pi - sl);
        if pi < e {
            assert(m[pi - sl] == '.');
        }
    }
    (d, pi)
}

/// The number of zeros at the start of `d`.
fn leading_zeros(d: &Vec<char>) -> (z: usize)
    ensures
        z <= d@.len(),
        forall|q: int| 0 <= q < z ==> #[trigger] d@[q] == '0',
        z < d@.len() ==> d@[z as int] != '0',
{
    let mut z: usize = 0;
    while z < d.len() && d[z] == '0'
        invariant
            z <= d@.len(),
            forall|q: int| 0 <= q < z ==> #[trigger] d@[q] == '0',
        decreases d@.len() - z,
    {
        z = z + 1;
    }
    z
}

/// The exponent of a float text whose exponent mark, if any, is at `e`:
/// the value of the signed digits after the mark, zero without one.
pub open spec fn exponent_of(t: Seq<char>, has_exp: bool, e: int) -> int {
    if has_exp {
        signed_digits_value(t.subrange(e + 1, t.len() as int))
    } else {
        0
    }
}

/// The parts of the float text `t`: its mantissa digits, how many of them
/// follow the point, whether it has an exponent, and the index of the
/// exponent mark; `None` when it is no decimal number.
fn float_text_parts(t: &Vec<char>) -> (r: Option<(Vec<char>, usize, bool, usize)>)
    ensures
        match decimal_parts(t@) {
            Some(parts) => r matches Some(found) && found.0@ == parts.0 && found.1 == parts.1 && found.1 <= t@.len()
                && found.3 <= t@.len()
                && found.2 == (found.3 < t@.len()) && parts.2 == exponent_of(t@, found.2, found.3 as int) && (found.2
                ==> is_signed_digits(t@.subrange(found.3 + 1, t@.len() as int))) && all_digits(found.0@),
            None => r is None,
        },
{
    let sl: usize = if t.len() > 0 && (t[0] == '+' || t[0] == '-') {
        1
    } else {
        0
    };
    assert(sl as int == sign_len(t@));
    let mut e = sl;
    while e < t.len() && !(t[e] == 'e' || t[e] == 'E')
        invariant
            sl <= e <= t@.len(),
            forall|j: int| sl <= j < e ==> !(#[trigger] t@[j] == 'e' || t@[j] == 'E'),
        decreases t@.len() - e,
    {
        e = e + 1;
    }
    proof {
        lemma_exponent_mark_from(t@, sl as int, e as int);
    }
    assert(exponent_mark(t@, sl as int) == e);
    let ghost m = t@.subrange(sl as int, e as int);
    if !mantissa_in(t, sl, e) {
        return None;
    }
    let has_exp = e < t.len();
    if has_exp && !signed_digits_in(t, e + 1, t.len()) {
        return None;
    }
    let (d, pi) = mantissa_parts(t, sl, e);
    let f: usize = if pi < e {
        e - pi - 1
    } else {
        0
    };
    assert(f == fraction_len(m));
    proof {
        assert forall|i: int| 0 <= i < m.len() implies is_digit(#[trigger] m[i]) || m[i] == '.' by {}
        lemma_mantissa_digits_are_digits(m);
    }
    Some((d, f, has_exp, e))
}

/// Whether the mantissa digits `d`, with `f` digits after the point and
/// the exponent of `t` at `e`, denote a value of magnitude at most `b`.
fn scaled_within(d: &Vec<char>, f: usize, t: &Vec<char>, has_exp: bool, e: usize, b: &Vec<char>) -> (r: bool)
    requires
        all_digits(d@),
        valid_bound(b@),
        e <= t@.len(),
        has_exp == (e < t@.len()),
        has_exp ==> is_signed_digits(t@.subrange(e + 1, t@.len() as int)),
        f <= t@.len(),
    ensures
        r == (digits_value(d@) * pow10(positive_part(exponent_of(t@, has_exp, e as int) - f)) <= digits_value(b@) * pow10(
            positive_part(-(exponent_of(t@, has_exp, e as int) - f)),
        )),
{
    let ghost x_exact: int = exponent_of(t@, has_exp, e as int);
    let ghost k_exact: int = x_exact - f;
    let z = leading_zeros(d);
    proof {
        lemma_leading_zeros(d@, z as int);
        lemma_digits_value_bounds(b@);
    }
    let ghost dz = d@.skip(z as int);
    if z == d.len() {
        proof {
            assert(dz =~= Seq::<char>::empty());
            let pa = pow10(positive_part(k_exact));
            let pb = pow10(positive_part(-k_exact));
            lemma_pow10_positive(positive_part(-k_exact));
            let vb = digits_value(b@);
            assert(0 * pa <= vb * pb) by (nonlinear_arith)
                requires
                    vb >= 0,
                    pb >= 1,
            ;
        }
        return true;
    }
    let n = d.len() - z;
    assert(all_digits(dz)) by {
        assert forall|i: int| 0 <= i < dz.len() implies is_digit(#[trigger] dz[i]) by {
            assert(dz[i] == d@[z + i]);
        }
    }
    assert(dz[0] == d@[z as int]);
    let tlen = t.len();
    let (neg, mag) = if has_exp {
        exponent_value(t, e + 1, tlen)
    } else {
        (false, 0)
    };
    let x: i128 = if neg {
        -mag
    } else {
        mag
    };
    let k: i128 = x - (f as i128);
    let kp: i128 = if k > 0 {
        k
    } else {
        0
    };
    let kq: i128 = if k < 0 {
        -k
    } else {
        0
    };
    let len_p: i128 = (n as i128) + kp;
    let len_q: i128 = (b.len() as i128) + kq;
    proof {
        lemma_scaled_comparison(dz, positive_part(k_exact), b@, positive_part(-k_exact));
    }
    let ghost exact = x == x_exact;
    if len_p < len_q {
        proof {
            if !exact {
                assert(neg);
            }
        }
        return true;
    }
    if len_p > len_q {
        proof {
            if !exact {
                assert(!neg);
            }
        }
        return false;
    }
    assert(exact);
    assert(kp == positive_part(k_exact) && kq == positive_part(-k_exact));
    lex_le_padded(d, z, kp as usize, b, kq as usize)
}

/// Whether the decimal float text `text` denotes a value whose magnitude
/// is at most the integer that `bound` spells.
pub fn text_within_bound(text: &str, bound: &str) -> (r: bool)
    ensures
        r == text_within(text@, bound@),
{
    let t = chars_of(text);
    let b = chars_of(bound);
    if !is_valid_bound(&b) {
        return false;
    }
    match float_text_parts(&t) {
        None => false,
        Some((d, f, has_exp, e)) => scaled_within(&d, f, &t, has_exp, e, &b),
    }
}

} // verus!

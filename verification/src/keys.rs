//! Numeric reading of gauge/size keys ("16", "3/16", "1-1/2", "0.1875").
//!
//! A key's number is kept exactly, as a ratio of integers. Decimal literals
//! follow the number syntax of `str::parse::<f64>` (optional sign, digits
//! with at most one point, optional exponent); a key's ratio is held only
//! while its numerator and denominator stay within `KEY_LIMIT`, and a key
//! that needs more, or names an infinity or NaN, is ranked as text.
use vstd::prelude::*;

use crate::text::{
    chars_of, digit_of, digit_value, find_char, is_digit, lowercase_of, replace_all, replace_vec,
    slice_chars, string_of, to_lowercase, trim, trim_vec, trimmed_chars,
};

verus! {

/// Largest magnitude of a numerator or denominator the key reader keeps.
pub const KEY_LIMIT: i64 = 1_000_000_000_000;

pub open spec fn pow10(k: nat) -> int
    decreases k,
{
    if k == 0 {
        1
    } else {
        10 * pow10((k - 1) as nat)
    }
}

/// Reads sign-less mantissa text left to right: `(mantissa, digits after the
/// point, point seen, digit count)`, or `None` at the first character that is
/// neither a digit nor the single point.
pub open spec fn mantissa_scan(s: Seq<char>) -> Option<(int, int, bool, int)>
    decreases s.len(),
{
    if s.len() == 0 {
        Some((0, 0, false, 0))
    } else {
        match mantissa_scan(s.drop_last()) {
            None => None,
            Some((m, f, seen, nd)) => {
                let c = s.last();
                if is_digit(c) {
                    Some((m * 10 + digit_value(c), if seen {
                        f + 1
                    } else {
                        f
                    }, seen, nd + 1))
                } else if c == '.' && !seen {
                    Some((m, f, true, nd))
                } else {
                    None
                }
            },
        }
    }
}

pub open spec fn has_sign(s: Seq<char>) -> bool {
    s.len() > 0 && (s[0] == '+' || s[0] == '-')
}

pub open spec fn unsigned_part(s: Seq<char>) -> Seq<char> {
    if has_sign(s) {
        s.drop_first()
    } else {
        s
    }
}

/// `c` marks an exponent.
pub open spec fn is_exponent_marker(c: char) -> bool {
    c == 'e' || c == 'E'
}

/// The first exponent marker of `s` is at `p`.
pub open spec fn exponent_at(s: Seq<char>, p: int) -> bool {
    0 <= p < s.len() && is_exponent_marker(s[p]) && forall|j: int| 0 <= j < p ==> !is_exponent_marker(s[j])
}

/// The text of a sign-less literal before its exponent marker (all of it
/// when there is none).
pub open spec fn mantissa_text(b: Seq<char>) -> Seq<char> {
    if exists|p: int| exponent_at(b, p) {
        b.take(choose|p: int| exponent_at(b, p))
    } else {
        b
    }
}

/// The value of exponent text: an optional sign, then one or more digits.
pub open spec fn exponent_value(t: Seq<char>) -> Option<int> {
    match mantissa_scan(unsigned_part(t)) {
        Some((v, _f, seen, nd)) => if !seen && nd > 0 {
            Some(if has_sign(t) && t[0] == '-' {
                -v
            } else {
                v
            })
        } else {
            None
        },
        None => None,
    }
}

/// The exponent of a sign-less literal: the value after its marker, or 0
/// when it has none.
pub open spec fn exponent_of(b: Seq<char>) -> Option<int> {
    if exists|p: int| exponent_at(b, p) {
        exponent_value(b.skip((choose|p: int| exponent_at(b, p)) + 1))
    } else {
        Some(0)
    }
}

/// `m / 10^f * 10^e` as a ratio.
pub open spec fn scaled(m: int, f: int, e: int) -> (int, int) {
    if e >= f {
        (m * pow10((e - f) as nat), 1)
    } else {
        (m, pow10((f - e) as nat))
    }
}

/// The exact value of a decimal literal (`str::parse::<f64>`'s number
/// syntax: optional sign, digits with at most one point, optional exponent),
/// if `s` is one.
pub open spec fn decimal_exact(s: Seq<char>) -> Option<(int, int)> {
    let b = unsigned_part(s);
    match (mantissa_scan(mantissa_text(b)), exponent_of(b)) {
        (Some((m, f, _seen, nd)), Some(e)) => if nd > 0 {
            let r = scaled(m, f, e);
            Some((if has_sign(s) && s[0] == '-' {
                -r.0
            } else {
                r.0
            }, r.1))
        } else {
            None
        },
        _ => None,
    }
}

pub open spec fn is_decimal(s: Seq<char>) -> bool {
    decimal_exact(s) is Some
}

pub open spec fn within_limit(r: (int, int)) -> bool {
    -KEY_LIMIT <= r.0 <= KEY_LIMIT && 1 <= r.1 <= KEY_LIMIT
}

/// A zero ratio is kept as `0/1`.
pub open spec fn canonical(r: (int, int)) -> (int, int) {
    if r.0 == 0 {
        (0, 1)
    } else {
        r
    }
}

/// The value of decimal literal `s` when it is held within the limit.
pub open spec fn decimal_value(s: Seq<char>) -> Option<(int, int)> {
    match decimal_exact(s) {
        Some(r) => if within_limit(canonical(r)) {
            Some(canonical(r))
        } else {
            None
        },
        None => None,
    }
}

/// Outcome of reading a decimal literal.
pub enum Decimal {
    /// Not a decimal literal.
    Invalid,
    /// A literal whose value is not held within `KEY_LIMIT`.
    OutOfRange,
    /// The literal's canonical ratio.
    Value(i64, i64),
}

pub open spec fn decimal_outcome(s: Seq<char>, d: Decimal) -> bool {
    match d {
        Decimal::Invalid => !is_decimal(s),
        Decimal::OutOfRange => is_decimal(s) && decimal_value(s) is None,
        Decimal::Value(n, k) => decimal_value(s) == Some((n as int, k as int)),
    }
}

proof fn lemma_scan_step(s: Seq<char>, k: int)
    requires
        0 <= k < s.len(),
    ensures
        s.take(k + 1).drop_last() == s.take(k),
        s.take(k + 1).last() == s[k],
{
    assert(s.take(k + 1).drop_last() =~= s.take(k));
}

proof fn lemma_scan_grows(s: Seq<char>, i: int, j: int)
    requires
        0 <= i <= j <= s.len(),
        mantissa_scan(s.take(j)) is Some,
    ensures
        mantissa_scan(s.take(i)) is Some,
        mantissa_scan(s.take(i)).unwrap().0 <= mantissa_scan(s.take(j)).unwrap().0,
        mantissa_scan(s.take(i)).unwrap().0 >= 0,
        mantissa_scan(s.take(i)).unwrap().1 <= mantissa_scan(s.take(j)).unwrap().1,
        mantissa_scan(s.take(i)).unwrap().1 >= 0,
    decreases j - i,
{
    if i < j {
        lemma_scan_step(s, j - 1);
        lemma_scan_grows(s, i, j - 1);
    } else {
        lemma_scan_nonneg(s.take(i));
    }
}

proof fn lemma_scan_nonneg(s: Seq<char>)
    requires
        mantissa_scan(s) is Some,
    ensures
        mantissa_scan(s).unwrap().0 >= 0,
        mantissa_scan(s).unwrap().1 >= 0,
    decreases s.len(),
{
    if s.len() > 0 {
        lemma_scan_nonneg(s.drop_last());
    }
}

fn pow10_exec(k: usize) -> (r: i64)
    requires
        k <= 12,
    ensures
        r == pow10(k as nat),
        r <= KEY_LIMIT,
        r >= 1,
{
    let mut r: i64 = 1;
    let mut i: usize = 0;
    proof {
        lemma_pow10_mono(0, 12);
        reveal_with_fuel(pow10, 13);
    }
    while i < k
        invariant
            i <= k <= 12,
            r == pow10(i as nat),
            1 <= r <= pow10(i as nat),
            pow10(i as nat) <= pow10(12),
            pow10(12) == KEY_LIMIT,
        decreases k - i,
    {
        proof {
            lemma_pow10_mono((i + 1) as nat, 12);
        }
        r = r * 10;
        i = i + 1;
    }
    proof {
        reveal_with_fuel(pow10, 13);
        assert(pow10(12) == KEY_LIMIT);
    }
    r
}

proof fn lemma_pow10_mono(a: nat, b: nat)
    requires
        a <= b,
    ensures
        1 <= pow10(a) <= pow10(b),
    decreases b,
{
    if a < b {
        lemma_pow10_mono(a, (b - 1) as nat);
    } else if a > 0 {
        lemma_pow10_mono((a - 1) as nat, (a - 1) as nat);
    }
}

proof fn lemma_scan_seen_extends(s: Seq<char>, k: int)
    requires
        0 <= k <= s.len(),
        mantissa_scan(s.take(k)) is None || mantissa_scan(s.take(k)).unwrap().2,
    ensures
        mantissa_scan(s) is None || mantissa_scan(s).unwrap().2,
    decreases s.len() - k,
{
    if k < s.len() {
        lemma_scan_step(s, k);
        lemma_scan_seen_extends(s, k + 1);
    } else {
        assert(s.take(k) == s);
    }
}

proof fn lemma_exponent_at_unique(s: Seq<char>, i: int, j: int)
    requires
        exponent_at(s, i),
        exponent_at(s, j),
    ensures
        i == j,
{
}

proof fn lemma_pow10_13()
    ensures
        pow10(13) > KEY_LIMIT,
        pow10(12) == KEY_LIMIT,
{
    reveal_with_fuel(pow10, 14);
}

proof fn lemma_mul_big(m: int, p: int)
    requires
        m >= 1,
        p >= 1,
    ensures
        m * p >= m,
        m * p >= p,
{
    assert(m * p >= m) by (nonlinear_arith)
        requires
            m >= 1,
            p >= 1,
    ;
    assert(m * p >= p) by (nonlinear_arith)
        requires
            m >= 1,
            p >= 1,
    ;
}

/// What reading finds: the sign-less text, its mantissa text, where the
/// exponent starts.
proof fn lemma_split(body: Seq<char>, q: int)
    requires
        0 <= q <= body.len(),
        forall|j: int| 0 <= j < q ==> !is_exponent_marker(#[trigger] body[j]),
        q < body.len() ==> is_exponent_marker(body[q]),
    ensures
        mantissa_text(body) == body.take(q),
        q < body.len() ==> exponent_of(body) == exponent_value(body.skip(q + 1)),
        q == body.len() ==> exponent_of(body) == Some(0int),
{
    if q < body.len() {
        assert(exponent_at(body, q));
        let p = choose|p: int| exponent_at(body, p);
        lemma_exponent_at_unique(body, p, q);
    } else {
        assert(!exists|p: int| exponent_at(body, p));
        assert(body.take(q) =~= body);
    }
}

/// Largest exponent magnitude the reader tracks exactly; any larger one
/// puts a non-zero value out of range.
const EXPONENT_CAP: u128 = 0x4000_0000_0000_0000_0000;

fn scan_mantissa(s: &Vec<char>, start: usize, stop: usize) -> (r: Option<(i64, bool, usize, usize)>)
    requires
        start <= stop <= s.len(),
    ensures
        match r {
            None => mantissa_scan(s@.subrange(start as int, stop as int)) is None,
            Some((m, big, frac, digits)) => mantissa_scan(s@.subrange(start as int, stop as int)) matches Some(
                (mg, f, _seen, nd),
            ) && f == frac && nd == digits && mg >= 0 && frac <= stop && (big ==> mg > KEY_LIMIT) && (!big
                ==> mg == m && 0 <= m <= KEY_LIMIT),
        },
{
    let ghost mt = s@.subrange(start as int, stop as int);
    let mut m: i64 = 0;
    let mut frac: usize = 0;
    let mut seen = false;
    let mut digits: usize = 0;
    let mut big = false;
    let ghost mut mg: int = 0;
    let mut i: usize = start;
    assert(mt.take(0) =~= Seq::<char>::empty());
    while i < stop
        invariant
            start <= i <= stop <= s.len(),
            mt == s@.subrange(start as int, stop as int),
            mantissa_scan(mt.take(i - start)) == Some((mg, frac as int, seen, digits as int)),
            frac <= i,
            digits <= i,
            big ==> mg > KEY_LIMIT,
            !big ==> m == mg && 0 <= m <= KEY_LIMIT,
        decreases stop - i,
    {
        let c = s[i];
        proof {
            lemma_scan_step(mt, (i - start) as int);
            assert(mt.take(i - start + 1) == mt.take((i + 1 - start) as int));
            assert(mt[i - start] == c);
        }
        match digit_of(c) {
            Some(d) => {
                if !big {
                    let m2 = m * 10 + d as i64;
                    if m2 > KEY_LIMIT {
                        big = true;
                    } else {
                        m = m2;
                    }
                }
                proof {
                    mg = mg * 10 + digit_value(c);
                }
                if seen {
                    frac = frac + 1;
                }
                digits = digits + 1;
            },
            None => {
                if c == '.' && !seen {
                    seen = true;
                } else {
                    proof {
                        assert(mantissa_scan(mt.take(i + 1 - start)) is None);
                        lemma_scan_none_extends(mt, (i + 1 - start) as int);
                    }
                    return None;
                }
            },
        }
        i = i + 1;
    }
    assert(mt.take(stop - start) == mt);
    proof {
        lemma_scan_nonneg(mt);
    }
    Some((m, big, frac, digits))
}

fn scan_exponent(s: &Vec<char>, from: usize) -> (r: Option<(bool, bool, u128)>)
    requires
        from <= s.len(),
    ensures
        match r {
            None => exponent_value(s@.skip(from as int)) is None,
            Some((neg, big, ev)) => exponent_value(s@.skip(from as int)) matches Some(e) && ev <= EXPONENT_CAP && (big && !neg ==> e
                > EXPONENT_CAP) && (big && neg ==> e < -EXPONENT_CAP) && (!big ==> e == if neg {
                -(ev as int)
            } else {
                ev as int
            }),
        },
{
    let n = s.len();
    let ghost t = s@.skip(from as int);
    let mut j: usize = from;
    let mut e_neg = false;
    if j < n && (s[j] == '+' || s[j] == '-') {
        e_neg = s[j] == '-';
        j = j + 1;
    }
    let estart = j;
    assert(t.len() > 0 ==> t[0] == s@[from as int]);
    assert(e_neg == (has_sign(t) && t[0] == '-'));
    let ghost u = unsigned_part(t);
    assert(u =~= s@.skip(estart as int));
    assert(u.take(0) =~= Seq::<char>::empty());
    let mut ev: u128 = 0;
    let mut e_big = false;
    let ghost mut eg: int = 0;
    while j < n
        invariant
            estart <= j <= n,
            n == s.len(),
            u == s@.skip(estart as int),
            u == unsigned_part(s@.skip(from as int)),
            t == s@.skip(from as int),
            e_neg == (has_sign(t) && t[0] == '-'),
            estart <= n,
            mantissa_scan(u.take(j - estart)) == Some((eg, 0int, false, (j - estart) as int)),
            e_big ==> eg > EXPONENT_CAP,
            ev <= EXPONENT_CAP,
            !e_big ==> ev == eg && 0 <= eg <= EXPONENT_CAP,
        decreases n - j,
    {
        let c = s[j];
        proof {
            lemma_scan_step(u, (j - estart) as int);
            assert(u.take(j - estart + 1) == u.take((j + 1 - estart) as int));
            assert(u[j - estart] == c);
        }
        match digit_of(c) {
            Some(d) => {
                if !e_big {
                    let e2 = ev * 10 + d as u128;
                    if e2 > EXPONENT_CAP {
                        e_big = true;
                    } else {
                        ev = e2;
                    }
                }
                proof {
                    eg = eg * 10 + digit_value(c);
                }
            },
            None => {
                proof {
                    lemma_scan_seen_extends(u, (j + 1 - estart) as int);
                }
                return None;
            },
        }
        j = j + 1;
    }
    assert(u.take(n - estart) == u);
    if j == estart {
        return None;
    }
    assert(mantissa_scan(u) == Some((eg, 0int, false, (n - estart) as int)));
    assert(exponent_value(t) == Some(if e_neg { -eg } else { eg }));
    Some((e_neg, e_big, ev))
}

/// Reads `s` as a decimal literal.
#[verifier::rlimit(30)]
pub fn read_decimal(s: &Vec<char>) -> (r: Decimal)
    ensures
        decimal_outcome(s@, r),
{
    let n = s.len();
    let mut start: usize = 0;
    let mut neg = false;
    if n > 0 && (s[0] == '+' || s[0] == '-') {
        neg = s[0] == '-';
        start = 1;
    }
    let ghost body = unsigned_part(s@);
    assert(body == s@.skip(start as int));
    let mut stop: usize = start;
    while stop < n && !(s[stop] == 'e' || s[stop] == 'E')
        invariant
            start <= stop <= n,
            n == s.len(),
            forall|j: int| start <= j < stop ==> !is_exponent_marker(#[trigger] s@[j]),
        decreases n - stop,
    {
        stop = stop + 1;
    }
    proof {
        assert forall|j: int| 0 <= j < stop - start implies !is_exponent_marker(#[trigger] body[j]) by {
            assert(body[j] == s@[start + j]);
        }
        if stop < n {
            assert(body[stop - start] == s@[stop as int]);
            assert(body.skip(stop - start + 1) =~= s@.skip(stop + 1));
        }
        lemma_split(body, (stop - start) as int);
        assert(body.take(stop - start) =~= s@.subrange(start as int, stop as int));
    }
    let (m, big, frac, digits) = match scan_mantissa(s, start, stop) {
        Some(x) => x,
        None => return Decimal::Invalid,
    };
    let ghost mg = mantissa_scan(s@.subrange(start as int, stop as int)).unwrap().0;
    let (e_neg, e_big, ev) = if stop < n {
        match scan_exponent(s, stop + 1) {
            Some(x) => x,
            None => return Decimal::Invalid,
        }
    } else {
        (false, false, 0u128)
    };
    let ghost e: int = exponent_of(body).unwrap();
    if digits == 0 {
        return Decimal::Invalid;
    }
    let ghost r = scaled(mg, frac as int, e);
    assert(decimal_exact(s@) == Some((if neg { -r.0 } else { r.0 }, r.1)));
    proof {
        lemma_pow10_13();
    }
    if big {
        proof {
            if e >= frac {
                lemma_pow10_mono(0, (e - frac) as nat);
                lemma_mul_big(mg, pow10((e - frac) as nat));
            }
        }
        return Decimal::OutOfRange;
    }
    if m == 0 {
        assert(r.0 == 0) by (nonlinear_arith)
            requires
                mg == 0,
                r == scaled(mg, frac as int, e),
        ;
        return Decimal::Value(0, 1);
    }
    if e_big {
        proof {
            if !e_neg {
                lemma_pow10_mono(13, (e - frac) as nat);
                lemma_mul_big(mg, pow10((e - frac) as nat));
            } else {
                lemma_pow10_mono(13, (frac - e) as nat);
            }
        }
        return Decimal::OutOfRange;
    }
    let ee: i128 = if e_neg {
        -(ev as i128)
    } else {
        ev as i128
    };
    let d: i128 = ee - (frac as i128);
    if d > 12 {
        proof {
            lemma_pow10_mono(13, (e - frac) as nat);
            lemma_mul_big(mg, pow10((e - frac) as nat));
        }
        return Decimal::OutOfRange;
    }
    if d < -12 {
        proof {
            lemma_pow10_mono(13, (frac - e) as nat);
        }
        return Decimal::OutOfRange;
    }
    if d >= 0 {
        let p = pow10_exec(d as usize);
        assert((m as int) * (p as int) <= KEY_LIMIT * KEY_LIMIT) by (nonlinear_arith)
            requires
                0 <= m <= KEY_LIMIT,
                1 <= p <= KEY_LIMIT,
        ;
        let val: i128 = (m as i128) * (p as i128);
        proof {
            lemma_mul_big(mg, p as int);
        }
        if val > KEY_LIMIT as i128 {
            return Decimal::OutOfRange;
        }
        let v = val as i64;
        Decimal::Value(
            if neg {
                -v
            } else {
                v
            },
            1,
        )
    } else {
        let den = pow10_exec((-d) as usize);
        Decimal::Value(
            if neg {
                -m
            } else {
                m
            },
            den,
        )
    }
}

proof fn lemma_scan_none_extends(s: Seq<char>, k: int)
    requires
        0 <= k <= s.len(),
        mantissa_scan(s.take(k)) is None,
    ensures
        mantissa_scan(s) is None,
    decreases s.len() - k,
{
    if k < s.len() {
        lemma_scan_step(s, k);
        lemma_scan_none_extends(s, k + 1);
    } else {
        assert(s.take(k) == s);
    }
}

// ---------------------------------------------------------------------------
// Fractions
// ---------------------------------------------------------------------------

/// Index of the first `c` in `s`.
pub open spec fn first_at(s: Seq<char>, c: char, i: int) -> bool {
    0 <= i < s.len() && s[i] == c && forall|j: int| 0 <= j < i ==> s[j] != c
}

/// `num / den` as a ratio with positive denominator (`den` non-zero).
pub open spec fn ratio_div(num: (int, int), den: (int, int)) -> (int, int) {
    if den.0 < 0 {
        (-(num.0 * den.1), num.1 * (-den.0))
    } else {
        (num.0 * den.1, num.1 * den.0)
    }
}

pub open spec fn ratio_add(a: (int, int), b: (int, int)) -> (int, int) {
    (a.0 * b.1 + b.0 * a.1, a.1 * b.1)
}

/// Value of `whole + num_text / den_text` (the texts trimmed): `None` when
/// a part is missing, is not held within the limit, when the denominator is
/// zero, or when the result is not held within the limit.
pub open spec fn quotient_value(whole: Option<(int, int)>, num_text: Seq<char>, den_text: Seq<char>) -> Option<(int, int)> {
    match (whole, decimal_value(trim(num_text)), decimal_value(trim(den_text))) {
        (Some(w), Some(a), Some(b)) => if b.0 == 0 {
            None
        } else {
            let r = canonical(ratio_add(w, ratio_div(a, b)));
            if within_limit(r) {
                Some(r)
            } else {
                None
            }
        },
        _ => None,
    }
}

/// Fraction syntax: `"a/b"`, or a mixed fraction `"w-a/b"`. The text is
/// split at the first `'-'` when the part before it is a decimal literal and
/// the part after it holds a `'/'`, and otherwise at the first `'/'`.
pub open spec fn fraction_value(s: Seq<char>) -> Option<(int, int)> {
    let t = trim(s);
    if !t.contains('/') {
        None
    } else if t.contains('-') && {
        let p = choose|p: int| first_at(t, '-', p);
        trim(t.skip(p + 1)).contains('/') && is_decimal(trim(t.take(p)))
    } {
        let p = choose|p: int| first_at(t, '-', p);
        let f = trim(t.skip(p + 1));
        let q = choose|q: int| first_at(f, '/', q);
        quotient_value(decimal_value(trim(t.take(p))), f.take(q), f.skip(q + 1))
    } else {
        let q = choose|q: int| first_at(t, '/', q);
        quotient_value(Some((0, 1)), t.take(q), t.skip(q + 1))
    }
}

proof fn lemma_first_at_unique(s: Seq<char>, c: char, i: int, j: int)
    requires
        first_at(s, c, i),
        first_at(s, c, j),
    ensures
        i == j,
{
}

fn find_first(s: &Vec<char>, c: char) -> (r: Option<usize>)
    ensures
        match r {
            Some(i) => first_at(s@, c, i as int),
            None => !s@.contains(c),
        },
{
    find_char(s, c)
}

fn read_trimmed(s: &Vec<char>, from: usize, to: usize) -> (r: Decimal)
    requires
        from <= to <= s.len(),
    ensures
        decimal_outcome(trim(s@.subrange(from as int, to as int)), r),
{
    let part = slice_chars(s, from, to);
    let t = trim_vec(&part);
    read_decimal(&t)
}

fn ratio_in_limit(n: i128, d: i128) -> (r: Option<(i64, i64)>)
    requires
        d >= 1,
    ensures
        match r {
            Some((a, b)) => within_limit(canonical((n as int, d as int))) && (a as int, b as int)
                == canonical((n as int, d as int)),
            None => !within_limit(canonical((n as int, d as int))),
        },
{
    if n == 0 {
        return Some((0, 1));
    }
    if n < -(KEY_LIMIT as i128) || n > KEY_LIMIT as i128 || d > KEY_LIMIT as i128 {
        return None;
    }
    Some((n as i64, d as i64))
}

fn quotient(w: (i64, i64), a: (i64, i64), b: (i64, i64)) -> (r: Option<(i64, i64)>)
    requires
        within_limit((w.0 as int, w.1 as int)),
        within_limit((a.0 as int, a.1 as int)),
        within_limit((b.0 as int, b.1 as int)),
        b.0 != 0,
    ensures
        ({
            let v = canonical(
                ratio_add(
                    (w.0 as int, w.1 as int),
                    ratio_div((a.0 as int, a.1 as int), (b.0 as int, b.1 as int)),
                ),
            );
            match r {
                Some((x, y)) => within_limit(v) && (x as int, y as int) == v,
                None => !within_limit(v),
            }
        }),
{
    let an = a.0 as i128;
    let ad = a.1 as i128;
    let bn = b.0 as i128;
    let bd = b.1 as i128;
    let wn = w.0 as i128;
    let wd = w.1 as i128;
    proof {
        let l = KEY_LIMIT as int;
        assert(-l * l <= an * bd <= l * l) by (nonlinear_arith)
            requires
                -l <= an <= l,
                1 <= bd <= l,
        ;
        let abn: int = if bn < 0 {
            -bn
        } else {
            bn as int
        };
        assert(1 <= ad * abn <= l * l) by (nonlinear_arith)
            requires
                1 <= ad <= l,
                1 <= abn <= l,
        ;
    }
    let (qn, qd) = if bn < 0 {
        (-(an * bd), ad * (-bn))
    } else {
        (an * bd, ad * bn)
    };
    proof {
        let l = KEY_LIMIT as int;
        assert(l == 1_000_000_000_000);
        assert(-l * l * l <= wn * qd <= l * l * l) by (nonlinear_arith)
            requires
                -l <= wn <= l,
                1 <= qd <= l * l,
                l > 0,
        ;
        assert(-l * l * l <= qn * wd <= l * l * l) by (nonlinear_arith)
            requires
                -l * l <= qn <= l * l,
                1 <= wd <= l,
                l > 0,
        ;
        assert(1 <= wd * qd <= l * l * l) by (nonlinear_arith)
            requires
                1 <= qd <= l * l,
                1 <= wd <= l,
                l > 0,
        ;
    }
    let n = wn * qd + qn * wd;
    let d = wd * qd;
    ratio_in_limit(n, d)
}

fn read_quotient(whole: Option<(i64, i64)>, s: &Vec<char>, q: usize) -> (r: Option<(i64, i64)>)
    requires
        q < s.len(),
        whole matches Some(w) ==> within_limit((w.0 as int, w.1 as int)),
    ensures
        ({
            let w = match whole {
                Some(w) => Some((w.0 as int, w.1 as int)),
                None => None,
            };
            match r {
                Some((a, b)) => quotient_value(w, s@.take(q as int), s@.skip(q + 1)) == Some(
                    (a as int, b as int),
                ),
                None => quotient_value(w, s@.take(q as int), s@.skip(q + 1)) is None,
            }
        }),
{
    assert(s@.subrange(0, q as int) == s@.take(q as int));
    assert(s@.subrange(q + 1, s.len() as int) == s@.skip(q + 1));
    let num = read_trimmed(s, 0, q);
    let den = read_trimmed(s, q + 1, s.len());
    match (whole, num, den) {
        (Some(w), Decimal::Value(an, ad), Decimal::Value(bn, bd)) => {
            if bn == 0 {
                None
            } else {
                quotient(w, (an, ad), (bn, bd))
            }
        },
        _ => None,
    }
}

/// Reads a fraction or mixed fraction (see `fraction_value`).
pub fn read_fraction(s: &Vec<char>) -> (r: Option<(i64, i64)>)
    ensures
        match r {
            Some((a, b)) => fraction_value(s@) == Some((a as int, b as int)),
            None => fraction_value(s@) is None,
        },
{
    let t = trim_vec(s);
    let slash = find_first(&t, '/');
    if slash.is_none() {
        return None;
    }
    let dash = find_first(&t, '-');
    match dash {
        Some(p) => {
            let after = slice_chars(&t, p + 1, t.len());
            let f = trim_vec(&after);
            assert(f@ == trim(t@.skip(p + 1)));
            let fslash = find_first(&f, '/');
            let before = slice_chars(&t, 0, p);
            let wt = trim_vec(&before);
            assert(wt@ == trim(t@.take(p as int)));
            let whole = read_decimal(&wt);
            proof {
                let pc = choose|pp: int| first_at(t@, '-', pp);
                lemma_first_at_unique(t@, '-', p as int, pc);
            }
            match (fslash, whole) {
                (Some(q), Decimal::Value(wn, wd)) => {
                    proof {
                        let qc = choose|qq: int| first_at(f@, '/', qq);
                        lemma_first_at_unique(f@, '/', q as int, qc);
                    }
                    return read_quotient(Some((wn, wd)), &f, q);
                },
                (Some(q), Decimal::OutOfRange) => {
                    proof {
                        let qc = choose|qq: int| first_at(f@, '/', qq);
                        lemma_first_at_unique(f@, '/', q as int, qc);
                    }
                    return None;
                },
                _ => {},
            }
        },
        None => {},
    }
    let q = slash.unwrap();
    proof {
        let qc = choose|qq: int| first_at(t@, '/', qq);
        lemma_first_at_unique(t@, '/', q as int, qc);
    }
    read_quotient(Some((0, 1)), &t, q)
}

// ---------------------------------------------------------------------------
// The number of a key
// ---------------------------------------------------------------------------

/// The text `" inch"`, dropped from keys before they are read.
pub open spec fn inch_suffix() -> Seq<char> {
    seq![' ', 'i', 'n', 'c', 'h']
}

/// A key as it is read: trimmed, lower-cased, with `" inch"` removed.
pub open spec fn normalized_key(key: Seq<char>) -> Seq<char> {
    replace_all(lowercase_of(trim(key)), inch_suffix(), Seq::empty())
}

/// The (kind, value) of a key: kind 0 for a whole number, 1 for any other
/// number (fractions included), 2 for text, whose value is unused.
pub open spec fn key_number(key: Seq<char>) -> (int, (int, int)) {
    let t = normalized_key(key);
    if is_decimal(t) {
        match decimal_value(t) {
            Some(v) => (if v.0 % v.1 == 0 {
                0int
            } else {
                1int
            }, v),
            None => (2, (0, 1)),
        }
    } else {
        match fraction_value(t) {
            Some(v) => (1, v),
            None => (2, (0, 1)),
        }
    }
}

/// A key's numeric reading: `kind` (0 whole number, 1 other number, 2 text)
/// and, for kinds 0 and 1, its exact value `numerator / denominator`.
pub struct KeyNumeric {
    pub kind: u8,
    pub numerator: i64,
    pub denominator: i64,
}

impl KeyNumeric {
    pub open spec fn value(&self) -> (int, int) {
        (self.numerator as int, self.denominator as int)
    }

    pub open spec fn describes(&self, key: Seq<char>) -> bool {
        &&& self.kind as int == key_number(key).0
        &&& self.kind != 2 ==> self.value() == key_number(key).1
        &&& self.kind != 2 ==> within_limit(self.value())
    }
}

fn inch_text() -> (r: Vec<char>)
    ensures
        r@ == inch_suffix(),
{
    let mut r: Vec<char> = Vec::new();
    r.push(' ');
    r.push('i');
    r.push('n');
    r.push('c');
    r.push('h');
    assert(r@ =~= inch_suffix());
    r
}

/// Reads a key as trimmed, lower-cased text without `" inch"`.
pub fn normalize_key(key: &str) -> (r: Vec<char>)
    ensures
        r@ == normalized_key(key@),
{
    let t = trimmed_chars(key);
    let ts = string_of(&t);
    let lower = to_lowercase(ts.as_str());
    let lc = chars_of(lower.as_str());
    let pat = inch_text();
    let empty: Vec<char> = Vec::new();
    let r = replace_vec(&lc, &pat, &empty);
    assert(empty@ =~= Seq::<char>::empty());
    r
}

/// Whether `d` (positive) divides `n`.
pub fn divides(d: i64, n: i64) -> (r: bool)
    requires
        d > 0,
    ensures
        r == (n as int % d as int == 0),
{
    let a: i128 = if n < 0 {
        -(n as i128)
    } else {
        n as i128
    };
    let r = a % (d as i128) == 0;
    proof {
        let ni = n as int;
        let di = d as int;
        let ai = a as int;
        if n < 0 {
            assert(ai == -ni);
            if ai % di == 0 {
                vstd::arithmetic::div_mod::lemma_fundamental_div_mod(ai, di);
                let k = ai / di;
                assert(ni == (-k) * di) by (nonlinear_arith)
                    requires
                        ai == di * k,
                        ni == -ai,
                ;
                vstd::arithmetic::div_mod::lemma_mod_multiples_basic(-k, di);
            }
            if ni % di == 0 {
                vstd::arithmetic::div_mod::lemma_fundamental_div_mod(ni, di);
                let k = ni / di;
                assert(ai == (-k) * di) by (nonlinear_arith)
                    requires
                        ni == di * k,
                        ai == -ni,
                ;
                vstd::arithmetic::div_mod::lemma_mod_multiples_basic(-k, di);
            }
        }
    }
    r
}

/// Classifies a normalized key text.
pub fn number_of_normalized(t: &Vec<char>) -> (r: KeyNumeric)
    ensures
        ({
            let k = if is_decimal(t@) {
                match decimal_value(t@) {
                    Some(v) => (if v.0 % v.1 == 0 {
                        0int
                    } else {
                        1int
                    }, v),
                    None => (2int, (0int, 1int)),
                }
            } else {
                match fraction_value(t@) {
                    Some(v) => (1int, v),
                    None => (2int, (0int, 1int)),
                }
            };
            &&& r.kind as int == k.0
            &&& r.kind != 2 ==> r.value() == k.1 && within_limit(r.value())
        }),
{
    match read_decimal(t) {
        Decimal::Value(n, d) => {
            let kind: u8 = if divides(d, n) {
                0
            } else {
                1
            };
            KeyNumeric { kind, numerator: n, denominator: d }
        },
        Decimal::OutOfRange => KeyNumeric { kind: 2, numerator: 0, denominator: 1 },
        Decimal::Invalid => match read_fraction(t) {
            Some((n, d)) => KeyNumeric { kind: 1, numerator: n, denominator: d },
            None => KeyNumeric { kind: 2, numerator: 0, denominator: 1 },
        },
    }
}

/// The numeric reading of a gauge key (see `key_number`).
pub fn key_to_numeric(key: &str) -> (r: KeyNumeric)
    ensures
        r.describes(key@),
{
    let t = normalize_key(key);
    number_of_normalized(&t)
}

} // verus!

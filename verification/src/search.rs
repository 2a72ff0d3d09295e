//! Finding gauge keys from what a user typed: exact and numeric matches,
//! then prefix and substring matches, then (for numbers) the nearest keys.
use vstd::prelude::*;

use crate::keys::{
    decimal_value, is_decimal, key_number, key_to_numeric, read_decimal, within_limit, Decimal,
    KeyNumeric, KEY_LIMIT,
};
use crate::order::{
    key_order, lemma_key_order_antisymmetric, lemma_key_order_equal, lemma_key_order_transitive,
    lemma_ratio_trans, ratio_order, reading_compare,
};
use crate::text::{
    chars_of, contains_text, has_infix, has_prefix, lowercase_of, remove_chars,
    remove_chars_vec, replace_all, replace_vec, same_chars, starts_with, string_of, to_lowercase,
    to_uppercase, trim, trimmed_chars, uppercase_of,
};

verus! {

broadcast use vstd::string::group_string_axioms;

/// How a search text is compared: trimmed, lower-cased, without the words
/// "inches", "inch", "in.", and without double quotes and spaces.
pub open spec fn search_token(input: Seq<char>) -> Seq<char> {
    remove_chars(
        replace_all(
            replace_all(
                replace_all(lowercase_of(trim(input)), "inches"@, Seq::empty()),
                "inch"@,
                Seq::empty(),
            ),
            "in."@,
            Seq::empty(),
        ),
        seq!['"', ' '],
    )
}

/// The number a search text stands for, if any: the normalized text read as
/// a decimal literal, or else as a gauge key that reads as a number.
pub open spec fn search_number(input: Seq<char>) -> Option<(int, int)> {
    let t = search_token(input);
    if t.len() == 0 {
        None
    } else if is_decimal(t) {
        decimal_value(t)
    } else if key_number(t).0 != 2 {
        Some(key_number(t).1)
    } else {
        None
    }
}

/// Whether two numbers differ by less than one billionth.
pub open spec fn close(a: (int, int), b: (int, int)) -> bool {
    let d = a.0 * b.1 - b.0 * a.1;
    let ad = if d < 0 {
        -d
    } else {
        d
    };
    ad * 1_000_000_000 < a.1 * b.1
}

/// How well a key matches a (non-blank) query: 0 same text, 1 same number,
/// 2 prefix, 3 substring; `None` for no match.
pub open spec fn match_rank(key: Seq<char>, query: Seq<char>) -> Option<int> {
    let kt = search_token(key);
    let qt = search_token(query);
    if kt == qt {
        Some(0)
    } else if search_number(query) is Some && search_number(key) is Some && close(
        search_number(query).unwrap(),
        search_number(key).unwrap(),
    ) {
        Some(1)
    } else if starts_with(kt, qt) {
        Some(2)
    } else if contains_text(kt, qt) {
        Some(3)
    } else {
        None
    }
}

/// Distance from `q` to `k`, as a ratio scaled by `q`'s denominator.
pub open spec fn scaled_distance(q: (int, int), k: (int, int)) -> (int, int) {
    let d = q.0 * k.1 - k.0 * q.1;
    (if d < 0 {
        -d
    } else {
        d
    }, k.1)
}

/// Listing order of key positions: by `primary`, then by key order, then by
/// position.
pub open spec fn listed_before(keys: Seq<Seq<char>>, primary: Seq<(int, int)>, i: int, j: int) -> bool {
    let o = ratio_order(primary[i], primary[j]);
    let k = key_order(keys[i], keys[j]);
    o < 0 || (o == 0 && (k < 0 || (k == 0 && i < j)))
}

pub open spec fn listed_in_order(r: Seq<usize>, keys: Seq<Seq<char>>, primary: Seq<(int, int)>) -> bool {
    &&& forall|a: int| 0 <= a < r.len() ==> (r[a] as int) < keys.len()
    &&& forall|a: int, b: int|
        0 <= a < b < r.len() ==> listed_before(keys, primary, r[a] as int, r[b] as int)
}

pub open spec fn texts_of(keys: Seq<String>) -> Seq<Seq<char>> {
    Seq::new(keys.len(), |i: int| keys[i]@)
}

pub open spec fn rank_primary(keys: Seq<Seq<char>>, query: Seq<char>) -> Seq<(int, int)> {
    Seq::new(
        keys.len(),
        |i: int|
            (
                match match_rank(keys[i], query) {
                    Some(r) => r,
                    None => 0,
                },
                1,
            ),
    )
}

pub open spec fn distance_primary(keys: Seq<Seq<char>>, q: (int, int)) -> Seq<(int, int)> {
    Seq::new(
        keys.len(),
        |i: int|
            match search_number(keys[i]) {
                Some(k) => scaled_distance(q, k),
                None => (0, 1),
            },
    )
}

/// Number of keys among the first `n` that stand for a number.
pub open spec fn numeric_count(keys: Seq<Seq<char>>, n: int) -> int
    decreases n,
{
    if n <= 0 {
        0
    } else {
        numeric_count(keys, n - 1) + if search_number(keys[n - 1]) is Some {
            1int
        } else {
            0int
        }
    }
}

/// Some key matches the query.
pub open spec fn some_match(keys: Seq<Seq<char>>, query: Seq<char>) -> bool {
    exists|i: int| 0 <= i < keys.len() && match_rank(keys[i], query) is Some
}

/// Some key stands for a number.
pub open spec fn some_numeric(keys: Seq<Seq<char>>) -> bool {
    exists|i: int| 0 <= i < keys.len() && search_number(keys[i]) is Some
}

/// `r` lists exactly the matching positions, in listing order by rank.
pub open spec fn direct_listing(keys: Seq<Seq<char>>, query: Seq<char>, r: Seq<usize>) -> bool {
    &&& listed_in_order(r, keys, rank_primary(keys, query))
    &&& forall|i: int|
        0 <= i < keys.len() ==> (r.contains(i as usize) <==> match_rank(keys[i], query) is Some)
}

/// `r` lists the (at most) 15 numeric positions nearest to `q`, in listing
/// order by distance.
pub open spec fn nearby_listing(keys: Seq<Seq<char>>, q: (int, int), r: Seq<usize>) -> bool {
    let primary = distance_primary(keys, q);
    let n = numeric_count(keys, keys.len() as int);
    &&& listed_in_order(r, keys, primary)
    &&& r.len() == if n < 15 {
        n
    } else {
        15
    }
    &&& forall|a: int| 0 <= a < r.len() ==> search_number(keys[r[a] as int]) is Some
    &&& forall|i: int|
        0 <= i < keys.len() && search_number(keys[i]) is Some && !r.contains(i as usize)
            ==> forall|a: int| 0 <= a < r.len() ==> listed_before(keys, primary, r[a] as int, i)
}

/// What the gauge search lists for `query` over `keys`:
/// - a blank query lists every position in order;
/// - if some key matches (see `match_rank`), exactly the matching positions,
///   best rank first, then in key order, then by position;
/// - otherwise, if the query stands for a number, the (at most) 15 keys that
///   stand for numbers nearest to it, nearest first, then in key order;
/// - otherwise nothing.
pub open spec fn search_listing(keys: Seq<Seq<char>>, query: Seq<char>, r: Seq<usize>) -> bool {
    if trim(query).len() == 0 {
        r == Seq::new(keys.len(), |i: int| i as usize)
    } else if some_match(keys, query) {
        direct_listing(keys, query, r)
    } else if search_number(query) is Some {
        nearby_listing(keys, search_number(query).unwrap(), r)
    } else {
        r.len() == 0
    }
}

// ---------------------------------------------------------------------------
// Normalizing search text
// ---------------------------------------------------------------------------

fn blank() -> (r: Vec<char>)
    ensures
        r@ == Seq::<char>::empty(),
{
    Vec::new()
}

/// Normalizes a gauge search text (see `search_token`).
pub fn normalize_gauge_search_token(input: &str) -> (r: String)
    ensures
        r@ == search_token(input@),
{
    let t = trimmed_chars(input);
    let ts = string_of(&t);
    let lower = to_lowercase(ts.as_str());
    let l = chars_of(lower.as_str());
    let inches = chars_of("inches");
    let inch = chars_of("inch");
    let in_dot = chars_of("in.");
    proof {
        reveal_strlit("inches");
        reveal_strlit("inch");
        reveal_strlit("in.");
    }
    let e = blank();
    let a = replace_vec(&l, &inches, &e);
    let b = replace_vec(&a, &inch, &e);
    let c = replace_vec(&b, &in_dot, &e);
    let mut drop: Vec<char> = Vec::new();
    drop.push('"');
    drop.push(' ');
    assert(drop@ =~= seq!['"', ' ']);
    let d = remove_chars_vec(&c, &drop);
    string_of(&d)
}

/// The number a search text stands for (see `search_number`).
pub fn gauge_search_numeric(input: &str) -> (r: Option<(i64, i64)>)
    ensures
        match r {
            Some((n, d)) => search_number(input@) == Some((n as int, d as int)) && within_limit(
                (n as int, d as int),
            ),
            None => search_number(input@) is None,
        },
{
    let t = normalize_gauge_search_token(input);
    let tv = chars_of(t.as_str());
    if tv.len() == 0 {
        return None;
    }
    match read_decimal(&tv) {
        Decimal::Value(n, d) => Some((n, d)),
        Decimal::OutOfRange => None,
        Decimal::Invalid => {
            let k = key_to_numeric(t.as_str());
            if k.kind != 2 {
                Some((k.numerator, k.denominator))
            } else {
                None
            }
        },
    }
}

// ---------------------------------------------------------------------------
// Ranking and listing keys
// ---------------------------------------------------------------------------

/// What the search needs to know of one key.
struct KeyView {
    text: Vec<char>,
    reading: KeyNumeric,
    token: Vec<char>,
    number: Option<(i64, i64)>,
}

spec fn number_matches(n: Option<(i64, i64)>, key: Seq<char>) -> bool {
    match n {
        Some((a, b)) => search_number(key) == Some((a as int, b as int)) && within_limit(
            (a as int, b as int),
        ),
        None => search_number(key) is None,
    }
}

spec fn view_of_key(v: KeyView, key: Seq<char>) -> bool {
    &&& v.text@ == key
    &&& v.reading.describes(key)
    &&& v.token@ == search_token(key)
    &&& number_matches(v.number, key)
}

fn view_of(key: &str) -> (v: KeyView)
    ensures
        view_of_key(v, key@),
{
    let text = chars_of(key);
    let reading = key_to_numeric(key);
    let t = normalize_gauge_search_token(key);
    let token = chars_of(t.as_str());
    let number = gauge_search_numeric(key);
    KeyView { text, reading, token, number }
}

fn is_close(a: (i64, i64), b: (i64, i64)) -> (r: bool)
    requires
        within_limit((a.0 as int, a.1 as int)),
        within_limit((b.0 as int, b.1 as int)),
    ensures
        r == close((a.0 as int, a.1 as int), (b.0 as int, b.1 as int)),
{
    proof {
        let l = KEY_LIMIT as int;
        assert(-l * l <= a.0 * b.1 <= l * l) by (nonlinear_arith)
            requires
                -l <= a.0 <= l,
                1 <= b.1 <= l,
        ;
        assert(-l * l <= b.0 * a.1 <= l * l) by (nonlinear_arith)
            requires
                -l <= b.0 <= l,
                1 <= a.1 <= l,
        ;
        assert(1 <= a.1 * b.1 <= l * l) by (nonlinear_arith)
            requires
                1 <= a.1 <= l,
                1 <= b.1 <= l,
        ;
        assert(l == 1_000_000_000_000);
    }
    let d = (a.0 as i128) * (b.1 as i128) - (b.0 as i128) * (a.1 as i128);
    let ad = if d < 0 {
        -d
    } else {
        d
    };
    ad * 1_000_000_000 < (a.1 as i128) * (b.1 as i128)
}

fn rank_of(v: &KeyView, qt: &Vec<char>, qv: Option<(i64, i64)>, Ghost(key): Ghost<Seq<char>>, Ghost(query): Ghost<Seq<char>>) -> (r: Option<u8>)
    requires
        view_of_key(*v, key),
        qt@ == search_token(query),
        number_matches(qv, query),
    ensures
        match r {
            Some(k) => match_rank(key, query) == Some(k as int) && k <= 3,
            None => match_rank(key, query) is None,
        },
{
    if same_chars(&v.token, qt) {
        return Some(0);
    }
    match (qv, v.number) {
        (Some(a), Some(b)) => {
            if is_close(a, b) {
                return Some(1);
            }
        },
        _ => {},
    }
    if has_prefix(&v.token, qt) {
        return Some(2);
    }
    if has_infix(&v.token, qt) {
        return Some(3);
    }
    None
}

/// Bounds that keep listing comparisons within 128-bit arithmetic.
spec fn primary_ok(p: (i128, i128)) -> bool {
    0 <= p.0 <= 3_000_000_000_000_000_000_000_000 && 1 <= p.1 <= KEY_LIMIT
}

spec fn views_match(views: Seq<KeyView>, keys: Seq<Seq<char>>) -> bool {
    &&& views.len() == keys.len()
    &&& forall|i: int| 0 <= i < keys.len() ==> view_of_key(#[trigger] views[i], keys[i])
}

spec fn primaries_match(prim: Seq<(i128, i128)>, p: Seq<(int, int)>) -> bool {
    &&& prim.len() == p.len()
    &&& forall|i: int|
        0 <= i < p.len() ==> primary_ok(#[trigger] prim[i]) && p[i] == (
            prim[i].0 as int,
            prim[i].1 as int,
        )
}

fn primary_compare(a: (i128, i128), b: (i128, i128)) -> (r: i8)
    requires
        primary_ok(a),
        primary_ok(b),
    ensures
        r as int == ratio_order((a.0 as int, a.1 as int), (b.0 as int, b.1 as int)),
{
    proof {
        assert(a.0 * b.1 <= 3_000_000_000_000_000_000_000_000 * KEY_LIMIT) by (nonlinear_arith)
            requires
                0 <= a.0 <= 3_000_000_000_000_000_000_000_000,
                1 <= b.1 <= KEY_LIMIT,
        ;
        assert(b.0 * a.1 <= 3_000_000_000_000_000_000_000_000 * KEY_LIMIT) by (nonlinear_arith)
            requires
                0 <= b.0 <= 3_000_000_000_000_000_000_000_000,
                1 <= a.1 <= KEY_LIMIT,
        ;
        assert(0 <= a.0 * b.1) by (nonlinear_arith)
            requires
                0 <= a.0,
                1 <= b.1,
        ;
        assert(0 <= b.0 * a.1) by (nonlinear_arith)
            requires
                0 <= b.0,
                1 <= a.1,
        ;
    }
    let l = a.0 * b.1;
    let r = b.0 * a.1;
    if l < r {
        -1
    } else if l > r {
        1
    } else {
        0
    }
}

fn before_exec(views: &Vec<KeyView>, prim: &Vec<(i128, i128)>, i: usize, j: usize, Ghost(keys): Ghost<Seq<Seq<char>>>, Ghost(p): Ghost<Seq<(int, int)>>) -> (r: bool)
    requires
        views_match(views@, keys),
        primaries_match(prim@, p),
        p.len() == keys.len(),
        i < keys.len(),
        j < keys.len(),
    ensures
        r == listed_before(keys, p, i as int, j as int),
{
    let o = primary_compare(prim[i], prim[j]);
    if o != 0 {
        return o < 0;
    }
    let vi = &views[i];
    let vj = &views[j];
    let k = reading_compare(&vi.text, &vi.reading, &vj.text, &vj.reading);
    if k != 0 {
        return k < 0;
    }
    i < j
}

proof fn lemma_listed_total(keys: Seq<Seq<char>>, p: Seq<(int, int)>, i: int, j: int)
    requires
        i != j,
    ensures
        listed_before(keys, p, i, j) || listed_before(keys, p, j, i),
{
    lemma_key_order_antisymmetric(keys[i], keys[j]);
}

proof fn lemma_listed_trans(keys: Seq<Seq<char>>, p: Seq<(int, int)>, i: int, j: int, k: int)
    requires
        0 <= i < keys.len(),
        0 <= j < keys.len(),
        0 <= k < keys.len(),
        p.len() == keys.len(),
        forall|m: int| 0 <= m < p.len() ==> #[trigger] p[m].1 > 0,
        listed_before(keys, p, i, j),
        listed_before(keys, p, j, k),
    ensures
        listed_before(keys, p, i, k),
{
    assert(p[i].1 > 0 && p[j].1 > 0 && p[k].1 > 0);
    lemma_ratio_trans(p[i], p[j], p[k]);
    let oik = ratio_order(p[i], p[k]);
    if oik == 0 {
        let ki = keys[i];
        let kj = keys[j];
        let kk = keys[k];
        lemma_key_order_transitive(ki, kj, kk);
        if key_order(ki, kk) == 0 {
            lemma_key_order_equal(ki, kk);
            assert(ki == kk);
            lemma_key_order_antisymmetric(kj, kk);
            assert(key_order(ki, kj) == 0);
            assert(key_order(kj, kk) == 0);
        }
    }
}

/// Inserts position `x` into a listing kept in listing order.
fn insert_listed(out: &mut Vec<usize>, x: usize, views: &Vec<KeyView>, prim: &Vec<(i128, i128)>, Ghost(keys): Ghost<Seq<Seq<char>>>, Ghost(p): Ghost<Seq<(int, int)>>)
    requires
        views_match(views@, keys),
        primaries_match(prim@, p),
        p.len() == keys.len(),
        x < keys.len(),
        listed_in_order(old(out)@, keys, p),
        !old(out)@.contains(x),
    ensures
        listed_in_order(final(out)@, keys, p),
        final(out)@.len() == old(out)@.len() + 1,
        forall|y: usize| final(out)@.contains(y) <==> (old(out)@.contains(y) || y == x),
{
    let ghost o = out@;
    let mut k: usize = 0;
    while k < out.len() && !before_exec(views, prim, x, out[k], Ghost(keys), Ghost(p))
        invariant
            k <= out.len(),
            out@ == o,
            views_match(views@, keys),
            primaries_match(prim@, p),
            p.len() == keys.len(),
            x < keys.len(),
            listed_in_order(o, keys, p),
            forall|a: int| 0 <= a < k ==> !listed_before(keys, p, x as int, #[trigger] o[a] as int),
        decreases out.len() - k,
    {
        k = k + 1;
    }
    out.insert(k, x);
    proof {
        assert forall|m: int| 0 <= m < p.len() implies #[trigger] p[m].1 > 0 by {
            assert(primary_ok(prim@[m]));
        }
        let n = out@;
        assert(n == o.insert(k as int, x));
        assert forall|a: int| 0 <= a < k implies listed_before(keys, p, #[trigger] o[a] as int, x as int) by {
            assert(o[a] != x) by {
                assert(o.contains(o[a]));
            }
            lemma_listed_total(keys, p, o[a] as int, x as int);
        }
        if k < o.len() {
            assert(listed_before(keys, p, x as int, o[k as int] as int));
            assert forall|b: int| k <= b < o.len() implies listed_before(keys, p, x as int, #[trigger] o[b] as int) by {
                if b > k {
                    lemma_listed_trans(keys, p, x as int, o[k as int] as int, o[b] as int);
                }
            }
        }
        assert forall|a: int, b: int| 0 <= a < b < n.len() implies listed_before(keys, p, n[a] as int, n[b] as int) by {
            if b < k {
                assert(n[a] == o[a] && n[b] == o[b]);
            } else if b == k {
                assert(n[b] == x && n[a] == o[a]);
            } else if a < k {
                assert(n[a] == o[a] && n[b] == o[b - 1]);
                if k < o.len() {
                    lemma_listed_trans(keys, p, o[a] as int, x as int, o[b - 1] as int);
                }
            } else if a == k {
                assert(n[a] == x && n[b] == o[b - 1]);
            } else {
                assert(n[a] == o[a - 1] && n[b] == o[b - 1]);
            }
        }
        assert forall|y: usize| n.contains(y) <==> (o.contains(y) || y == x) by {
            if n.contains(y) {
                let t = choose|t: int| 0 <= t < n.len() && n[t] == y;
                if t < k {
                    assert(o[t] == y);
                } else if t > k {
                    assert(o[t - 1] == y);
                }
            }
            if o.contains(y) {
                let t = choose|t: int| 0 <= t < o.len() && o[t] == y;
                if t < k {
                    assert(n[t] == y);
                } else {
                    assert(n[t + 1] == y);
                }
            }
            if y == x {
                assert(n[k as int] == x);
            }
        }
    }
}

fn views_of(keys: &[String]) -> (v: Vec<KeyView>)
    ensures
        views_match(v@, texts_of(keys@)),
{
    let mut v: Vec<KeyView> = Vec::new();
    let mut i: usize = 0;
    while i < keys.len()
        invariant
            i <= keys.len(),
            v@.len() == i,
            forall|m: int| 0 <= m < i ==> view_of_key(#[trigger] v@[m], keys@[m]@),
        decreases keys.len() - i,
    {
        let kv = view_of(keys[i].as_str());
        v.push(kv);
        i = i + 1;
    }
    v
}

fn all_positions(n: usize) -> (r: Vec<usize>)
    ensures
        r@ == Seq::new(n as nat, |i: int| i as usize),
{
    let mut r: Vec<usize> = Vec::new();
    let mut i: usize = 0;
    while i < n
        invariant
            i <= n,
            r@ == Seq::new(i as nat, |k: int| k as usize),
        decreases n - i,
    {
        r.push(i);
        assert(r@ =~= Seq::new((i + 1) as nat, |k: int| k as usize));
        i = i + 1;
    }
    r
}

fn distance_to(q: (i64, i64), k: (i64, i64)) -> (r: (i128, i128))
    requires
        within_limit((q.0 as int, q.1 as int)),
        within_limit((k.0 as int, k.1 as int)),
    ensures
        primary_ok(r),
        (r.0 as int, r.1 as int) == scaled_distance((q.0 as int, q.1 as int), (k.0 as int, k.1 as int)),
{
    proof {
        let l = KEY_LIMIT as int;
        assert(-l * l <= q.0 * k.1 <= l * l) by (nonlinear_arith)
            requires
                -l <= q.0 <= l,
                1 <= k.1 <= l,
        ;
        assert(-l * l <= k.0 * q.1 <= l * l) by (nonlinear_arith)
            requires
                -l <= k.0 <= l,
                1 <= q.1 <= l,
        ;
        assert(l == 1_000_000_000_000);
    }
    let d = (q.0 as i128) * (k.1 as i128) - (k.0 as i128) * (q.1 as i128);
    let ad = if d < 0 {
        -d
    } else {
        d
    };
    (ad, k.1 as i128)
}

/// Lists the positions of `keys` that match `query` (see `search_listing`).
pub fn smart_filter_gauge_indices(keys: &[String], query: &str) -> (r: Vec<usize>)
    ensures
        search_listing(texts_of(keys@), query@, r@),
{
    let qtrim = trimmed_chars(query);
    if qtrim.len() == 0 {
        return all_positions(keys.len());
    }
    let ghost ks = texts_of(keys@);
    let ghost q = query@;
    let views = views_of(keys);
    let qs = normalize_gauge_search_token(query);
    let qt = chars_of(qs.as_str());
    let qv = gauge_search_numeric(query);
    let n = keys.len();

    let ghost rp = rank_primary(ks, q);
    let mut ranked: Vec<bool> = Vec::new();
    let mut prim: Vec<(i128, i128)> = Vec::new();
    let mut i: usize = 0;
    while i < n
        invariant
            i <= n,
            n == keys.len(),
            n == ks.len(),
            ks == texts_of(keys@),
            rp == rank_primary(ks, q),
            views_match(views@, ks),
            qt@ == search_token(q),
            number_matches(qv, q),
            prim@.len() == i,
            ranked@.len() == i,
            forall|m: int|
                0 <= m < i ==> primary_ok(#[trigger] prim@[m]) && rp[m] == (
                    prim@[m].0 as int,
                    prim@[m].1 as int,
                ),
            forall|m: int| 0 <= m < i ==> (#[trigger] ranked@[m] == match_rank(ks[m], q) is Some),
        decreases n - i,
    {
        let rk = rank_of(&views[i], &qt, qv, Ghost(ks[i as int]), Ghost(q));
        match rk {
            Some(v) => {
                prim.push((v as i128, 1));
                ranked.push(true);
            },
            None => {
                prim.push((0, 1));
                ranked.push(false);
            },
        }
        i = i + 1;
    }
    assert(primaries_match(prim@, rp));

    let mut out: Vec<usize> = Vec::new();
    let mut i: usize = 0;
    while i < n
        invariant
            i <= n,
            n == ks.len(),
            views_match(views@, ks),
            primaries_match(prim@, rp),
            rp.len() == ks.len(),
            ranked@.len() == n,
            forall|m: int| 0 <= m < n ==> (#[trigger] ranked@[m] == match_rank(ks[m], q) is Some),
            listed_in_order(out@, ks, rp),
            forall|y: usize| out@.contains(y) <==> (y < i && match_rank(ks[y as int], q) is Some),
        decreases n - i,
    {
        if ranked[i] {
            assert(!out@.contains(i));
            insert_listed(&mut out, i, &views, &prim, Ghost(ks), Ghost(rp));
        }
        i = i + 1;
    }
    if out.len() > 0 {
        assert(out@.contains(out@[0]));
        assert forall|m: int| 0 <= m < ks.len() implies (out@.contains(m as usize) <==> match_rank(ks[m], q) is Some) by {}
        return out;
    }
    assert forall|m: int| 0 <= m < ks.len() implies match_rank(ks[m], q) is None by {
        if match_rank(ks[m], q) is Some {
            assert(out@.contains(m as usize));
        }
    }
    match qv {
        None => {
            return Vec::new();
        },
        Some(qn) => {
            let ghost dp = distance_primary(ks, (qn.0 as int, qn.1 as int));
            let mut prim2: Vec<(i128, i128)> = Vec::new();
            let mut i: usize = 0;
            while i < n
                invariant
                    i <= n,
                    n == ks.len(),
                    views_match(views@, ks),
                    within_limit((qn.0 as int, qn.1 as int)),
                    dp == distance_primary(ks, (qn.0 as int, qn.1 as int)),
                    prim2@.len() == i,
                    forall|m: int|
                        0 <= m < i ==> primary_ok(#[trigger] prim2@[m]) && dp[m] == (
                            prim2@[m].0 as int,
                            prim2@[m].1 as int,
                        ),
                decreases n - i,
            {
                let v = &views[i];
                assert(view_of_key(views@[i as int], ks[i as int]));
                match v.number {
                    Some(k) => {
                        let d = distance_to(qn, k);
                        prim2.push(d);
                    },
                    None => {
                        prim2.push((0, 1));
                    },
                }
                i = i + 1;
            }
            assert(primaries_match(prim2@, dp));
            let mut all: Vec<usize> = Vec::new();
            let mut i: usize = 0;
            while i < n
                invariant
                    i <= n,
                    n == ks.len(),
                    views_match(views@, ks),
                    primaries_match(prim2@, dp),
                    dp.len() == ks.len(),
                    listed_in_order(all@, ks, dp),
                    all@.len() == numeric_count(ks, i as int),
                    forall|y: usize|
                        all@.contains(y) <==> (y < i && search_number(ks[y as int]) is Some),
                decreases n - i,
            {
                assert(view_of_key(views@[i as int], ks[i as int]));
                if views[i].number.is_some() {
                    assert(!all@.contains(i));
                    insert_listed(&mut all, i, &views, &prim2, Ghost(ks), Ghost(dp));
                }
                i = i + 1;
            }
            let ghost full = all@;
            all.truncate(15);
            proof {
                let r = all@;
                assert forall|a: int| 0 <= a < r.len() implies search_number(ks[r[a] as int]) is Some by {
                    assert(full.contains(full[a]));
                }
                assert forall|y: int|
                    0 <= y < ks.len() && search_number(ks[y]) is Some && !r.contains(y as usize)
                        implies forall|a: int|
                    0 <= a < r.len() ==> listed_before(ks, dp, r[a] as int, y) by {
                    assert(full.contains(y as usize));
                    let t = choose|t: int| 0 <= t < full.len() && full[t] == y as usize;
                    if t < 15 {
                        assert(r[t] == y as usize);
                        assert(r.contains(y as usize));
                    }
                    assert forall|a: int| 0 <= a < r.len() implies listed_before(ks, dp, r[a] as int, y) by {
                        assert(r[a] == full[a]);
                    }
                }
            }
            return all;
        },
    }
}

/// `r` is the best match for `query` among `keys`: the position the search
/// lists first.
pub open spec fn best_match(keys: Seq<Seq<char>>, query: Seq<char>, r: Option<usize>) -> bool {
    if trim(query).len() == 0 {
        r == if keys.len() > 0 {
            Some(0usize)
        } else {
            None
        }
    } else if some_match(keys, query) {
        let p = rank_primary(keys, query);
        &&& r is Some
        &&& (r.unwrap() as int) < keys.len()
        &&& match_rank(keys[r.unwrap() as int], query) is Some
        &&& forall|j: int|
            0 <= j < keys.len() && j != r.unwrap() && match_rank(keys[j], query) is Some
                ==> listed_before(keys, p, r.unwrap() as int, j)
    } else if search_number(query) is Some {
        let p = distance_primary(keys, search_number(query).unwrap());
        if some_numeric(keys) {
            &&& r is Some
            &&& (r.unwrap() as int) < keys.len()
            &&& search_number(keys[r.unwrap() as int]) is Some
            &&& forall|j: int|
                0 <= j < keys.len() && j != r.unwrap() && search_number(keys[j]) is Some
                    ==> listed_before(keys, p, r.unwrap() as int, j)
        } else {
            r is None
        }
    } else {
        r is None
    }
}

/// The number a search text stands for has a positive denominator (and is
/// held within the key limit).
proof fn lemma_search_number_in_limit(t: Seq<char>)
    ensures
        search_number(t) matches Some(v) ==> within_limit(v),
{
}

/// |x| for an integer.
pub open spec fn abs_int(x: int) -> int {
    if x < 0 {
        -x
    } else {
        x
    }
}

/// `a` is strictly nearer to `q` than `b` is: |q - a| < |q - b| for the
/// ratios `q`, `a`, `b` (positive denominators), compared exactly by
/// multiplying out: |q - a| = |q.0 a.1 - a.0 q.1| / (q.1 a.1).
pub open spec fn strictly_nearer(q: (int, int), a: (int, int), b: (int, int)) -> bool {
    abs_int(q.0 * a.1 - a.0 * q.1) * b.1 < abs_int(q.0 * b.1 - b.0 * q.1) * a.1
}

proof fn lemma_nearer_order(q: (int, int), a: (int, int), b: (int, int))
    requires
        strictly_nearer(q, a, b),
    ensures
        ratio_order(scaled_distance(q, a), scaled_distance(q, b)) < 0,
        ratio_order(scaled_distance(q, b), scaled_distance(q, a)) > 0,
{
}

proof fn lemma_listed_earlier(keys: Seq<Seq<char>>, p: Seq<(int, int)>, r: Seq<usize>, i: usize, j: usize)
    requires
        forall|a: int, b: int| 0 <= a < b < r.len() ==> #[trigger] listed_before(keys, p, r[a] as int, r[b] as int),
        !r.contains(i) ==> forall|a: int| 0 <= a < r.len() ==> #[trigger] listed_before(keys, p, r[a] as int, i as int),
        r.contains(j),
        !listed_before(keys, p, j as int, i as int),
        i != j,
    ensures
        exists|x: int, y: int| 0 <= x < y < r.len() && r[x] == i && r[y] == j,
{
    let y = choose|y: int| 0 <= y < r.len() && r[y] == j;
    if !r.contains(i) {
        assert(listed_before(keys, p, r[y] as int, i as int));
    }
    let x = choose|x: int| 0 <= x < r.len() && r[x] == i;
    assert(x != y);
    if x > y {
        assert(listed_before(keys, p, r[y] as int, r[x] as int));
        assert(false);
    }
    assert(0 <= x < y < r.len() && r[x] == i && r[y] == j);
}

/// In the nearby listing a key whose number is strictly nearer to the
/// query's number comes first: whenever a farther key is listed, the nearer
/// one is listed too, at an earlier place.
pub proof fn lemma_nearer_listed_first(keys: Seq<Seq<char>>, q: (int, int), r: Seq<usize>, i: usize, j: usize)
    requires
        q.1 > 0,
        nearby_listing(keys, q, r),
        i < keys.len(),
        j < keys.len(),
        search_number(keys[i as int]) is Some,
        search_number(keys[j as int]) is Some,
        strictly_nearer(q, search_number(keys[i as int]).unwrap(), search_number(keys[j as int]).unwrap()),
        r.contains(j),
    ensures
        exists|x: int, y: int| 0 <= x < y < r.len() && r[x] == i && r[y] == j,
{
    let p = distance_primary(keys, q);
    let a = search_number(keys[i as int]).unwrap();
    let b = search_number(keys[j as int]).unwrap();
    lemma_nearer_order(q, a, b);
    assert(p[i as int] == scaled_distance(q, a));
    assert(p[j as int] == scaled_distance(q, b));
    assert(!listed_before(keys, p, j as int, i as int));
    assert(i != j);
    assert(listed_in_order(r, keys, p));
    assert(!r.contains(i) ==> forall|x: int| 0 <= x < r.len() ==> listed_before(keys, p, r[x] as int, i as int));
    lemma_listed_earlier(keys, p, r, i, j);
}

/// Among the keys a query matches, one whose search text is the query's
/// own comes before every key that matches otherwise (by number, prefix or
/// substring).
pub proof fn lemma_exact_text_listed_first(keys: Seq<Seq<char>>, query: Seq<char>, r: Seq<usize>, i: usize, j: usize)
    requires
        direct_listing(keys, query, r),
        i < keys.len(),
        j < keys.len(),
        search_token(keys[i as int]) == search_token(query),
        search_token(keys[j as int]) != search_token(query),
        r.contains(j),
    ensures
        exists|x: int, y: int| 0 <= x < y < r.len() && r[x] == i && r[y] == j,
{
    let p = rank_primary(keys, query);
    assert(match_rank(keys[i as int], query) == Some(0int));
    assert(match_rank(keys[j as int], query) is Some);
    assert(match_rank(keys[j as int], query).unwrap() > 0);
    assert(p[i as int] == (0int, 1int));
    assert(p[j as int].0 > 0 && p[j as int].1 == 1);
    assert(ratio_order(p[j as int], p[i as int]) > 0);
    assert(!listed_before(keys, p, j as int, i as int));
    assert(r.contains(i));
    assert(listed_in_order(r, keys, p));
    lemma_listed_earlier(keys, p, r, i, j);
}

/// When no key matches a numeric query directly, the best match is a
/// nearest key: no key's number is strictly nearer to the query's number.
pub proof fn lemma_best_match_is_nearest(keys: Seq<Seq<char>>, query: Seq<char>, r: Option<usize>, j: int)
    requires
        best_match(keys, query, r),
        trim(query).len() > 0,
        !some_match(keys, query),
        search_number(query) is Some,
        r is Some,
        0 <= j < keys.len(),
        search_number(keys[j]) is Some,
    ensures
        search_number(keys[r.unwrap() as int]) is Some,
        !strictly_nearer(
            search_number(query).unwrap(),
            search_number(keys[j]).unwrap(),
            search_number(keys[r.unwrap() as int]).unwrap(),
        ),
{
    let q = search_number(query).unwrap();
    let k = r.unwrap() as int;
    lemma_search_number_in_limit(query);
    lemma_search_number_in_limit(keys[j]);
    assert(some_numeric(keys));
    lemma_search_number_in_limit(keys[k]);
    let p = distance_primary(keys, q);
    if strictly_nearer(q, search_number(keys[j]).unwrap(), search_number(keys[k]).unwrap()) {
        assert(p[j] == scaled_distance(q, search_number(keys[j]).unwrap()));
        assert(p[k] == scaled_distance(q, search_number(keys[k]).unwrap()));
        assert(ratio_order(p[k], p[j]) > 0);
        if j != k {
            assert(listed_before(keys, p, k, j));
        }
    }
}

proof fn lemma_numeric_count(keys: Seq<Seq<char>>, n: int)
    requires
        0 <= n <= keys.len(),
    ensures
        numeric_count(keys, n) > 0 <==> exists|i: int| 0 <= i < n && search_number(keys[i]) is Some,
        numeric_count(keys, n) >= 0,
    decreases n,
{
    if n > 0 {
        lemma_numeric_count(keys, n - 1);
        if search_number(keys[n - 1]) is Some {
            assert(0 <= n - 1 < n && search_number(keys[n - 1]) is Some);
        }
        if numeric_count(keys, n - 1) > 0 {
            let i = choose|i: int| 0 <= i < n - 1 && search_number(keys[i]) is Some;
            assert(0 <= i < n && search_number(keys[i]) is Some);
        }
        if exists|i: int| 0 <= i < n && search_number(keys[i]) is Some {
            let i = choose|i: int| 0 <= i < n && search_number(keys[i]) is Some;
            if i < n - 1 {
                assert(0 <= i < n - 1 && search_number(keys[i]) is Some);
            }
        }
    }
}

proof fn lemma_first_listed_direct(ks: Seq<Seq<char>>, q: Seq<char>, l: Seq<usize>)
    requires
        some_match(ks, q),
        direct_listing(ks, q, l),
        ks.len() <= usize::MAX,
    ensures
        l.len() > 0,
        (l[0] as int) < ks.len(),
        match_rank(ks[l[0] as int], q) is Some,
        forall|j: int|
            0 <= j < ks.len() && j != l[0] as int && match_rank(ks[j], q) is Some ==> listed_before(
                ks,
                rank_primary(ks, q),
                l[0] as int,
                j,
            ),
{
    let i = choose|i: int| 0 <= i < ks.len() && match_rank(ks[i], q) is Some;
    assert(l.contains(i as usize));
    assert(l.contains(l[0]));
    let p = rank_primary(ks, q);
    assert forall|j: int|
        0 <= j < ks.len() && j != l[0] as int && match_rank(ks[j], q) is Some implies listed_before(
            ks,
            p,
            l[0] as int,
            j,
        ) by {
        assert(l.contains(j as usize));
        let t = choose|t: int| 0 <= t < l.len() && l[t] == j as usize;
        assert(t != 0);
        assert(listed_before(ks, p, l[0] as int, l[t] as int));
    }
}

proof fn lemma_first_listed_nearby(ks: Seq<Seq<char>>, qv: (int, int), l: Seq<usize>)
    requires
        some_numeric(ks),
        nearby_listing(ks, qv, l),
        ks.len() <= usize::MAX,
    ensures
        l.len() > 0,
        (l[0] as int) < ks.len(),
        search_number(ks[l[0] as int]) is Some,
        forall|j: int|
            0 <= j < ks.len() && j != l[0] as int && search_number(ks[j]) is Some ==> listed_before(
                ks,
                distance_primary(ks, qv),
                l[0] as int,
                j,
            ),
{
    lemma_numeric_count(ks, ks.len() as int);
    let p = distance_primary(ks, qv);
    assert forall|j: int|
        0 <= j < ks.len() && j != l[0] as int && search_number(ks[j]) is Some implies listed_before(
            ks,
            p,
            l[0] as int,
            j,
        ) by {
        if l.contains(j as usize) {
            let t = choose|t: int| 0 <= t < l.len() && l[t] == j as usize;
            assert(t != 0);
            assert(listed_before(ks, p, l[0] as int, l[t] as int));
        } else {
            assert(listed_before(ks, p, l[0] as int, j));
        }
    }
}

/// The best match for `query` among `keys` (the first position the search
/// lists), if any.
pub fn find_best_gauge_match(keys: &[String], query: &str) -> (r: Option<usize>)
    ensures
        best_match(texts_of(keys@), query@, r),
{
    let listing = smart_filter_gauge_indices(keys, query);
    proof {
        let ks = texts_of(keys@);
        assert(ks.len() == keys.len());
        let q = query@;
        if trim(q).len() != 0 {
            if some_match(ks, q) {
                lemma_first_listed_direct(ks, q, listing@);
            } else if search_number(q) is Some {
                if some_numeric(ks) {
                    lemma_first_listed_nearby(ks, search_number(q).unwrap(), listing@);
                } else {
                    lemma_numeric_count(ks, ks.len() as int);
                }
            }
        }
    }
    if listing.len() > 0 {
        Some(listing[0])
    } else {
        None
    }
}

/// `r` is the gauge position to use: the best match for the typed text when
/// it is not blank and something matches, else the selected position when
/// it is valid.
pub open spec fn resolved_gauge(keys: Seq<String>, gauge_text: Seq<char>, selected_index: i32, r: Option<usize>) -> bool {
    let t = trim(gauge_text);
    let fallback = if 0 <= selected_index < keys.len() {
        Some(selected_index as usize)
    } else {
        None
    };
    ||| t.len() > 0 && r is Some && best_match(texts_of(keys), t, r)
    ||| r == fallback && (t.len() == 0 || best_match(texts_of(keys), t, None))
}

/// The gauge position to use (see `resolved_gauge`).
pub fn resolve_gauge_index(keys: &[String], gauge_text: &str, selected_index: i32) -> (r: Option<usize>)
    ensures
        resolved_gauge(keys@, gauge_text@, selected_index, r),
{
    let t = trimmed_chars(gauge_text);
    if t.len() > 0 {
        let ts = string_of(&t);
        let found = find_best_gauge_match(keys, ts.as_str());
        if found.is_some() {
            return found;
        }
    }
    if selected_index >= 0 && (selected_index as usize) < keys.len() {
        Some(selected_index as usize)
    } else {
        None
    }
}

/// Whether two texts are equal ignoring case (compared upper-cased).
pub fn same_upper(a: &str, b: &str) -> (r: bool)
    ensures
        r == (uppercase_of(a@) == uppercase_of(b@)),
{
    let ua = to_uppercase(a);
    let ub = to_uppercase(b);
    ua == ub
}

/// First position of `items` equal to `target` ignoring case, or 0.
pub open spec fn first_same_upper(items: Seq<String>, target: Seq<char>) -> int {
    if exists|i: int| 0 <= i < items.len() && uppercase_of(items[i]@) == uppercase_of(target) {
        choose|i: int|
            0 <= i < items.len() && uppercase_of(items[i]@) == uppercase_of(target) && forall|j: int|
                0 <= j < i ==> uppercase_of(items[j]@) != uppercase_of(target)
    } else {
        0
    }
}

/// Position of `target` in `items` ignoring case, or 0 when absent.
pub fn find_index(items: &[String], target: &str) -> (r: i32)
    requires
        items@.len() <= i32::MAX,
    ensures
        r as int == first_same_upper(items@, target@),
{
    let mut i: usize = 0;
    while i < items.len()
        invariant
            i <= items.len(),
            items.len() <= i32::MAX,
            forall|j: int| 0 <= j < i ==> uppercase_of(items@[j]@) != uppercase_of(target@),
        decreases items.len() - i,
    {
        if same_upper(items[i].as_str(), target) {
            let ghost w = choose|k: int|
                0 <= k < items@.len() && uppercase_of(items@[k]@) == uppercase_of(target@) && forall|j: int|
                    0 <= j < k ==> uppercase_of(items@[j]@) != uppercase_of(target@);
            proof {
                assert(0 <= i < items@.len() && uppercase_of(items@[i as int]@) == uppercase_of(
                    target@,
                ));
                if w < i {
                } else if w > i {
                }
            }
            return i as i32;
        }
        i = i + 1;
    }
    0
}

/// The table name at `selected_index`, or empty when there is none.
pub fn current_table_name(table_names: &[String], selected_index: i32) -> (r: String)
    ensures
        r@ == if 0 <= selected_index < table_names@.len() {
            table_names@[selected_index as int]@
        } else {
            Seq::<char>::empty()
        },
{
    if selected_index >= 0 && (selected_index as usize) < table_names.len() {
        table_names[selected_index as usize].clone()
    } else {
        String::new()
    }
}

} // verus!

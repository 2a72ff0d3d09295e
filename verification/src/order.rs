//! The ordering of gauge keys: whole numbers first, then other numbers, then
//! text; numbers by value, and ties (and text) by the keys' characters.
use std::cmp::Ordering;

use vstd::prelude::*;

use crate::keys::{key_number, key_to_numeric, within_limit, KeyNumeric, KEY_LIMIT};
use crate::text::{char_code, chars_of, code};

verus! {

/// Lexicographic order of texts by code point (the order of `str`): -1, 0
/// or 1.
pub open spec fn text_order(a: Seq<char>, b: Seq<char>) -> int
    decreases a.len(),
{
    if a.len() == 0 {
        if b.len() == 0 {
            0
        } else {
            -1
        }
    } else if b.len() == 0 {
        1
    } else if code(a[0]) < code(b[0]) {
        -1
    } else if code(a[0]) > code(b[0]) {
        1
    } else {
        text_order(a.drop_first(), b.drop_first())
    }
}

/// Order of two ratios with positive denominators, by value: -1, 0 or 1.
pub open spec fn ratio_order(a: (int, int), b: (int, int)) -> int {
    let l = a.0 * b.1;
    let r = b.0 * a.1;
    if l < r {
        -1
    } else if l > r {
        1
    } else {
        0
    }
}

/// The order of two gauge keys: by kind, then (for numbers) by value, then
/// by text.
pub open spec fn key_order(left: Seq<char>, right: Seq<char>) -> int {
    let (kl, vl) = key_number(left);
    let (kr, vr) = key_number(right);
    if kl < kr {
        -1
    } else if kl > kr {
        1
    } else if kl != 2 && ratio_order(vl, vr) != 0 {
        ratio_order(vl, vr)
    } else {
        text_order(left, right)
    }
}

/// Compares two texts by code point: -1, 0 or 1.
pub fn text_compare(a: &Vec<char>, b: &Vec<char>) -> (r: i8)
    ensures
        r as int == text_order(a@, b@),
{
    let mut i: usize = 0;
    assert(a@.skip(0) == a@);
    assert(b@.skip(0) == b@);
    while i < a.len() && i < b.len()
        invariant
            i <= a.len(),
            i <= b.len(),
            text_order(a@, b@) == text_order(a@.skip(i as int), b@.skip(i as int)),
        decreases a.len() - i,
    {
        let ca = char_code(a[i]);
        let cb = char_code(b[i]);
        assert(a@.skip(i as int)[0] == a@[i as int]);
        assert(b@.skip(i as int)[0] == b@[i as int]);
        if ca < cb {
            return -1;
        }
        if ca > cb {
            return 1;
        }
        assert(a@.skip(i as int).drop_first() == a@.skip(i + 1));
        assert(b@.skip(i as int).drop_first() == b@.skip(i + 1));
        i = i + 1;
    }
    if i == a.len() {
        if i == b.len() {
            0
        } else {
            -1
        }
    } else {
        1
    }
}

/// Compares two in-limit ratios by value: -1, 0 or 1.
pub fn ratio_compare(a: (i64, i64), b: (i64, i64)) -> (r: i8)
    requires
        within_limit((a.0 as int, a.1 as int)),
        within_limit((b.0 as int, b.1 as int)),
    ensures
        r as int == ratio_order((a.0 as int, a.1 as int), (b.0 as int, b.1 as int)),
{
    proof {
        let lim = KEY_LIMIT as int;
        assert(-lim * lim <= a.0 * b.1 <= lim * lim) by (nonlinear_arith)
            requires
                -lim <= a.0 <= lim,
                1 <= b.1 <= lim,
        ;
        assert(-lim * lim <= b.0 * a.1 <= lim * lim) by (nonlinear_arith)
            requires
                -lim <= b.0 <= lim,
                1 <= a.1 <= lim,
        ;
        assert(lim * lim < 0x7fff_ffff_ffff_ffff_ffff_ffff_ffff_ffff);
    }
    let l = (a.0 as i128) * (b.1 as i128);
    let r = (b.0 as i128) * (a.1 as i128);
    if l < r {
        -1
    } else if l > r {
        1
    } else {
        0
    }
}

/// Orders two keys from their readings.
pub fn reading_compare(a: &Vec<char>, ka: &KeyNumeric, b: &Vec<char>, kb: &KeyNumeric) -> (r: i8)
    requires
        ka.describes(a@),
        kb.describes(b@),
    ensures
        r as int == key_order(a@, b@),
{
    if ka.kind < kb.kind {
        return -1;
    }
    if ka.kind > kb.kind {
        return 1;
    }
    if ka.kind != 2 {
        let v = ratio_compare((ka.numerator, ka.denominator), (kb.numerator, kb.denominator));
        if v != 0 {
            return v;
        }
    }
    text_compare(a, b)
}

/// `compare_keys` as a sign: -1, 0 or 1.
pub fn key_compare(left: &str, right: &str) -> (r: i8)
    ensures
        r as int == key_order(left@, right@),
{
    let a = chars_of(left);
    let b = chars_of(right);
    let ka = key_to_numeric(left);
    let kb = key_to_numeric(right);
    reading_compare(&a, &ka, &b, &kb)
}

/// Orders gauge keys: whole numbers before other numbers before text;
/// numbers by value; equal values, and texts, by their characters.
pub fn compare_keys(left: &str, right: &str) -> (r: Ordering)
    ensures
        (r == Ordering::Less) == (key_order(left@, right@) < 0),
        (r == Ordering::Equal) == (key_order(left@, right@) == 0),
        (r == Ordering::Greater) == (key_order(left@, right@) > 0),
{
    let v = key_compare(left, right);
    if v < 0 {
        Ordering::Less
    } else if v > 0 {
        Ordering::Greater
    } else {
        Ordering::Equal
    }
}

// ---------------------------------------------------------------------------
// The key order is a total order
// ---------------------------------------------------------------------------

pub proof fn lemma_text_order_antisym(a: Seq<char>, b: Seq<char>)
    ensures
        text_order(a, b) == -text_order(b, a),
    decreases a.len(),
{
    if a.len() > 0 && b.len() > 0 && code(a[0]) == code(b[0]) {
        lemma_text_order_antisym(a.drop_first(), b.drop_first());
    }
}

pub proof fn lemma_text_order_zero(a: Seq<char>, b: Seq<char>)
    ensures
        (text_order(a, b) == 0) == (a == b),
    decreases a.len(),
{
    if a.len() > 0 && b.len() > 0 && code(a[0]) == code(b[0]) {
        lemma_text_order_zero(a.drop_first(), b.drop_first());
        assert(a[0] == b[0]);
        if a.drop_first() == b.drop_first() {
            assert forall|i: int| 0 <= i < a.len() implies a[i] == b[i] by {
                if i > 0 {
                    assert(a[i] == a.drop_first()[i - 1]);
                    assert(b[i] == b.drop_first()[i - 1]);
                }
            }
            assert(a =~= b);
        }
        if a == b {
            assert(a.drop_first() == b.drop_first());
        }
    } else if a.len() > 0 && b.len() > 0 {
        assert(a[0] != b[0]);
    } else if a.len() == 0 && b.len() == 0 {
        assert(a =~= b);
    } else {
        assert(a.len() != b.len());
    }
}

pub proof fn lemma_text_order_trans(a: Seq<char>, b: Seq<char>, c: Seq<char>)
    requires
        text_order(a, b) <= 0,
        text_order(b, c) <= 0,
    ensures
        text_order(a, c) <= 0,
    decreases a.len(),
{
    if a.len() > 0 && b.len() > 0 && c.len() > 0 && code(a[0]) == code(b[0]) && code(b[0])
        == code(c[0]) {
        lemma_text_order_trans(a.drop_first(), b.drop_first(), c.drop_first());
    }
}

pub proof fn lemma_ratio_trans(a: (int, int), b: (int, int), c: (int, int))
    requires
        a.1 > 0,
        b.1 > 0,
        c.1 > 0,
        ratio_order(a, b) <= 0,
        ratio_order(b, c) <= 0,
    ensures
        ratio_order(a, c) <= 0,
        ratio_order(a, c) == 0 ==> ratio_order(a, b) == 0 && ratio_order(b, c) == 0,
{
    let (an, ad) = a;
    let (bn, bd) = b;
    let (cn, cd) = c;
    assert(an * cd <= cn * ad) by (nonlinear_arith)
        requires
            an * bd <= bn * ad,
            bn * cd <= cn * bd,
            ad > 0,
            bd > 0,
            cd > 0,
    {
        assert(an * bd * cd <= bn * ad * cd);
        assert(bn * cd * ad <= cn * bd * ad);
        assert(an * cd * bd <= cn * ad * bd);
    }
    if an * cd == cn * ad {
        assert(an * bd == bn * ad && bn * cd == cn * bd) by (nonlinear_arith)
            requires
                an * bd <= bn * ad,
                bn * cd <= cn * bd,
                an * cd == cn * ad,
                ad > 0,
                bd > 0,
                cd > 0,
        {
            assert(an * bd * cd <= bn * ad * cd);
            assert(bn * cd * ad <= cn * bd * ad);
            assert(an * bd * cd == cn * ad * bd);
        }
    }
}

proof fn lemma_key_number_den(key: Seq<char>)
    ensures
        key_number(key).1.1 > 0,
{
}

/// Swapping the keys reverses their order.
pub proof fn lemma_key_order_antisymmetric(a: Seq<char>, b: Seq<char>)
    ensures
        key_order(a, b) == -key_order(b, a),
{
    lemma_text_order_antisym(a, b);
}

/// Two keys are ordered as equal exactly when they are the same text.
pub proof fn lemma_key_order_equal(a: Seq<char>, b: Seq<char>)
    ensures
        (key_order(a, b) == 0) == (a == b),
{
    lemma_text_order_zero(a, b);
}

/// The key order is transitive.
pub proof fn lemma_key_order_transitive(a: Seq<char>, b: Seq<char>, c: Seq<char>)
    requires
        key_order(a, b) <= 0,
        key_order(b, c) <= 0,
    ensures
        key_order(a, c) <= 0,
{
    let (ka, va) = key_number(a);
    let (kb, vb) = key_number(b);
    let (kc, vc) = key_number(c);
    lemma_key_number_den(a);
    lemma_key_number_den(b);
    lemma_key_number_den(c);
    if ka == kb && kb == kc {
        if ka == 2 {
            lemma_text_order_trans(a, b, c);
        } else {
            lemma_ratio_trans(va, vb, vc);
            if ratio_order(va, vc) == 0 {
                lemma_text_order_trans(a, b, c);
            }
        }
    }
}

} // verus!

//! Reading numbers typed into text fields.
use vstd::prelude::*;

use crate::errors::SteelCalError;
use crate::text::{digit_value, is_digit, push_text, trim, trimmed_chars};

verus! {

broadcast use vstd::string::group_string_axioms;

/// The value of a non-empty run of ASCII digits.
pub open spec fn digits_value(s: Seq<char>) -> Option<int>
    decreases s.len(),
{
    if s.len() == 0 {
        None
    } else if !is_digit(s.last()) {
        None
    } else if s.len() == 1 {
        Some(digit_value(s.last()))
    } else {
        match digits_value(s.drop_last()) {
            Some(v) => Some(v * 10 + digit_value(s.last())),
            None => None,
        }
    }
}

/// The value of an integer literal as `str::parse` reads one: an optional
/// `+` or `-`, then one or more ASCII digits.
pub open spec fn int_literal(s: Seq<char>) -> Option<int> {
    if s.len() > 0 && (s[0] == '+' || s[0] == '-') {
        match digits_value(s.drop_first()) {
            Some(v) => Some(if s[0] == '-' {
                -v
            } else {
                v
            }),
            None => None,
        }
    } else {
        digits_value(s)
    }
}

/// The `i32` that `s` spells, if it spells one in range.
pub open spec fn i32_literal(s: Seq<char>) -> Option<i32> {
    match int_literal(s) {
        Some(v) => if i32::MIN <= v <= i32::MAX {
            Some(v as i32)
        } else {
            None
        },
        None => None,
    }
}

proof fn lemma_digits_nonneg(s: Seq<char>)
    requires
        digits_value(s) is Some,
    ensures
        digits_value(s).unwrap() >= 0,
    decreases s.len(),
{
    if s.len() > 1 {
        lemma_digits_nonneg(s.drop_last());
    }
}

const CAP: i64 = 2_147_483_649;

/// Reads the digits of `s` from position `start`: `Some(min(value, CAP))`
/// when they are all digits and there is at least one.
fn read_digits(s: &Vec<char>, start: usize) -> (r: Option<i64>)
    requires
        start <= s.len(),
    ensures
        match digits_value(s@.skip(start as int)) {
            Some(v) => r == Some(if v < CAP {
                v as i64
            } else {
                CAP
            }),
            None => r is None,
        },
{
    let ghost body = s@.skip(start as int);
    if start == s.len() {
        return None;
    }
    let mut acc: i64 = 0;
    let mut i: usize = start;
    while i < s.len()
        invariant
            start < s.len(),
            start <= i <= s.len(),
            body == s@.skip(start as int),
            i > start ==> digits_value(body.take(i - start)) is Some,
            i > start ==> acc == if digits_value(body.take(i - start)).unwrap() < CAP {
                digits_value(body.take(i - start)).unwrap()
            } else {
                CAP as int
            },
            i == start ==> acc == 0,
            0 <= acc <= CAP,
        decreases s.len() - i,
    {
        let c = s[i];
        let ghost t = body.take(i - start + 1);
        assert(t.drop_last() =~= body.take(i - start));
        assert(t.last() == c);
        if !('0' <= c && c <= '9') {
            proof {
                lemma_digits_prefix(body, i - start + 1);
            }
            return None;
        }
        let d: i64 = (c as u32 - 48) as i64;
        proof {
            if i > start {
                lemma_digits_nonneg(body.take(i - start));
            }
        }
        acc = if acc >= 214748365 {
            CAP
        } else {
            let n = acc * 10 + d;
            if n > CAP {
                CAP
            } else {
                n
            }
        };
        i = i + 1;
    }
    assert(body.take(s.len() - start) =~= body);
    Some(acc)
}

proof fn lemma_digits_prefix(s: Seq<char>, k: int)
    requires
        0 < k <= s.len(),
        !is_digit(s.take(k).last()),
    ensures
        digits_value(s) is None,
    decreases s.len(),
{
    if k < s.len() {
        assert(s.drop_last().take(k) =~= s.take(k));
        lemma_digits_prefix(s.drop_last(), k);
    } else {
        assert(s.take(k) =~= s);
    }
}

/// Reads an `i32` literal (see `i32_literal`).
pub fn read_i32(s: &Vec<char>) -> (r: Option<i32>)
    ensures
        r == i32_literal(s@),
{
    let signed = s.len() > 0 && (s[0] == '+' || s[0] == '-');
    let start: usize = if signed {
        1
    } else {
        0
    };
    assert(s@.skip(0) =~= s@);
    assert(s@.skip(1) =~= s@.drop_first()) by {
        if s.len() > 0 {
            assert(s@.skip(1) =~= s@.drop_first());
        }
    }
    match read_digits(s, start) {
        Some(v) => {
            proof {
                lemma_digits_nonneg(s@.skip(start as int));
            }
            let neg = signed && s[0] == '-';
            if neg {
                if v <= 2_147_483_648 {
                    Some((-v) as i32)
                } else {
                    None
                }
            } else if v <= 2_147_483_647 {
                Some(v as i32)
            } else {
                None
            }
        },
        None => None,
    }
}

/// `name` followed by `tail`.
fn field_message(name: &str, tail: &str) -> (r: String)
    ensures
        r@ == name@ + tail@,
{
    let mut m = String::from_str(name);
    push_text(&mut m, tail);
    m
}

/// Reads an integer field: blank text gives `default`, or a "required"
/// error when there is none; other text must be an `i32` literal once
/// trimmed.
pub fn parse_int_text(text: &str, field_name: &str, default: Option<i32>) -> (r: Result<i32, SteelCalError>)
    ensures
        trim(text@).len() == 0 ==> match default {
            Some(d) => r == Ok::<i32, SteelCalError>(d),
            None => r matches Err(SteelCalError::Validation(m)) && m@ == field_name@ + " is required."@,
        },
        trim(text@).len() > 0 ==> match i32_literal(trim(text@)) {
            Some(v) => r == Ok::<i32, SteelCalError>(v),
            None => r matches Err(SteelCalError::Validation(m)) && m@ == field_name@
                + " must be an integer."@,
        },
{
    let t = trimmed_chars(text);
    if t.len() == 0 {
        return match default {
            Some(d) => Ok(d),
            None => Err(SteelCalError::validation(field_message(field_name, " is required."))),
        };
    }
    match read_i32(&t) {
        Some(v) => Ok(v),
        None => Err(SteelCalError::validation(field_message(field_name, " must be an integer."))),
    }
}

} // verus!

//! The textual form of floating-point numbers accepted by `f64::from_str`.
//!
//! The standard library documents the accepted strings, once lowercased, as
//!
//! ```text
//! Float  ::= Sign? ( 'inf' | 'infinity' | 'nan' | Number )
//! Number ::= ( Digit+ | Digit+ '.' Digit* | Digit* '.' Digit+ ) Exp?
//! Exp    ::= 'e' Sign? Digit+
//! Sign   ::= [+-]
//! Digit  ::= [0-9]
//! ```
//!
//! The library keeps measured quantities that it reads from text in this
//! form; converting them to binary floating point is left to the caller.
use vstd::prelude::*;

use crate::text::{chars_of, eq_ignore_case, eq_ignore_case_in, is_digit};

verus! {

pub open spec fn is_sign(c: char) -> bool {
    c == '+' || c == '-'
}

/// `t` without its leading sign, if it has one.
pub open spec fn unsigned_part(t: Seq<char>) -> Seq<char> {
    if t.len() > 0 && is_sign(t[0]) {
        t.drop_first()
    } else {
        t
    }
}

pub open spec fn is_exp_marker(c: char) -> bool {
    c == 'e' || c == 'E'
}

/// Index of the first exponent marker.
pub open spec fn find_exp(s: Seq<char>) -> Option<int>
    decreases s.len(),
{
    if s.len() == 0 {
        None
    } else if is_exp_marker(s[0]) {
        Some(0)
    } else {
        match find_exp(s.drop_first()) {
            Some(i) => Some(i + 1),
            None => None,
        }
    }
}

/// `Digit+ | Digit+ '.' Digit* | Digit* '.' Digit+`.
pub open spec fn is_mantissa(m: Seq<char>) -> bool {
    &&& forall|j: int| 0 <= j < m.len() ==> is_digit(#[trigger] m[j]) || m[j] == '.'
    &&& forall|j: int, k: int|
        0 <= j < m.len() && 0 <= k < m.len() && #[trigger] m[j] == '.' && #[trigger] m[k] == '.'
            ==> j == k
    &&& exists|j: int| 0 <= j < m.len() && is_digit(#[trigger] m[j])
}

/// `Sign? Digit+` (what follows the exponent marker).
pub open spec fn is_exponent(x: Seq<char>) -> bool {
    let d = unsigned_part(x);
    &&& d.len() > 0
    &&& forall|j: int| 0 <= j < d.len() ==> is_digit(#[trigger] d[j])
}

/// `Number`.
pub open spec fn is_number(u: Seq<char>) -> bool {
    match find_exp(u) {
        Some(i) => is_mantissa(u.take(i)) && is_exponent(u.skip(i + 1)),
        None => is_mantissa(u),
    }
}

pub open spec fn word_inf() -> Seq<char> {
    seq!['i', 'n', 'f']
}

pub open spec fn word_infinity() -> Seq<char> {
    seq!['i', 'n', 'f', 'i', 'n', 'i', 't', 'y']
}

pub open spec fn word_nan() -> Seq<char> {
    seq!['n', 'a', 'n']
}

/// `Float`: the strings that `f64::from_str` accepts.
pub open spec fn is_float_literal(t: Seq<char>) -> bool {
    let u = unsigned_part(t);
    ||| eq_ignore_case(u, word_inf())
    ||| eq_ignore_case(u, word_infinity())
    ||| eq_ignore_case(u, word_nan())
    ||| is_number(u)
}

proof fn lemma_find_exp(s: Seq<char>, k: int)
    requires
        0 <= k <= s.len(),
        forall|j: int| 0 <= j < k ==> !is_exp_marker(#[trigger] s[j]),
        k < s.len() ==> is_exp_marker(s[k]),
    ensures
        find_exp(s) == (if k < s.len() {
            Some(k)
        } else {
            None::<int>
        }),
    decreases k,
{
    if s.len() > 0 && k > 0 {
        let t = s.drop_first();
        assert forall|j: int| 0 <= j < k - 1 implies !is_exp_marker(#[trigger] t[j]) by {
            assert(t[j] == s[j + 1]);
        }
        lemma_find_exp(t, k - 1);
    }
}

/// Checks `Digit+ | Digit+ '.' Digit* | Digit* '.' Digit+` on `v[lo..hi]`.
fn mantissa_in(v: &Vec<char>, lo: usize, hi: usize) -> (r: bool)
    requires
        lo <= hi <= v.len(),
    ensures
        r == is_mantissa(v@.subrange(lo as int, hi as int)),
{
    let ghost m = v@.subrange(lo as int, hi as int);
    let mut k = lo;
    let mut dot: Option<usize> = None;
    let mut digit: Option<usize> = None;
    while k < hi
        invariant
            lo <= k <= hi <= v.len(),
            m == v@.subrange(lo as int, hi as int),
            forall|j: int| 0 <= j < k - lo ==> is_digit(#[trigger] m[j]) || m[j] == '.',
            match dot {
                Some(d) => lo <= d < k && m[d - lo] == '.' && forall|j: int|
                    0 <= j < k - lo && #[trigger] m[j] == '.' ==> j == d - lo,
                None => forall|j: int| 0 <= j < k - lo ==> #[trigger] m[j] != '.',
            },
            match digit {
                Some(d) => lo <= d < k && is_digit(m[d - lo]),
                None => forall|j: int| 0 <= j < k - lo ==> !is_digit(#[trigger] m[j]),
            },
        decreases hi - k,
    {
        let c = v[k];
        assert(m[k - lo] == c);
        if '0' <= c && c <= '9' {
            if digit.is_none() {
                digit = Some(k);
            }
        } else if c == '.' {
            if dot.is_some() {
                proof {
                    let d = dot.unwrap();
                    assert(m[d - lo] == '.' && m[k - lo] == '.');
                }
                return false;
            }
            dot = Some(k);
        } else {
            return false;
        }
        k = k + 1;
    }
    match digit {
        Some(d) => {
            assert(is_digit(m[d - lo]));
            true
        },
        None => false,
    }
}

/// Checks `Sign? Digit+` on `v[lo..hi]`.
fn exponent_in(v: &Vec<char>, lo: usize, hi: usize) -> (r: bool)
    requires
        lo <= hi <= v.len(),
    ensures
        r == is_exponent(v@.subrange(lo as int, hi as int)),
{
    let ghost x = v@.subrange(lo as int, hi as int);
    let mut a = lo;
    if a < hi && (v[a] == '+' || v[a] == '-') {
        a = a + 1;
    }
    let ghost d = v@.subrange(a as int, hi as int);
    assert(d =~= unsigned_part(x));
    if a == hi {
        return false;
    }
    let mut k = a;
    while k < hi
        invariant
            a <= k <= hi <= v.len(),
            d == v@.subrange(a as int, hi as int),
            x == v@.subrange(lo as int, hi as int),
            d == unsigned_part(x),
            forall|j: int| 0 <= j < k - a ==> is_digit(#[trigger] d[j]),
        decreases hi - k,
    {
        assert(d[k - a] == v@[k as int]);
        if !('0' <= v[k] && v[k] <= '9') {
            assert(!is_digit(d[k - a]));
            return false;
        }
        k = k + 1;
    }
    true
}

fn word_inf_vec() -> (v: Vec<char>)
    ensures
        v@ == word_inf(),
{
    vec!['i', 'n', 'f']
}

fn word_infinity_vec() -> (v: Vec<char>)
    ensures
        v@ == word_infinity(),
{
    vec!['i', 'n', 'f', 'i', 'n', 'i', 't', 'y']
}

fn word_nan_vec() -> (v: Vec<char>)
    ensures
        v@ == word_nan(),
{
    vec!['n', 'a', 'n']
}

/// Whether `f64::from_str` accepts the characters of `t`.
pub(crate) fn is_float_literal_chars(t: &Vec<char>) -> (r: bool)
    ensures
        r == is_float_literal(t@),
{
    let hi = t.len();
    let mut a: usize = 0;
    if hi > 0 && (t[0] == '+' || t[0] == '-') {
        a = 1;
    }
    let ghost u = t@.subrange(a as int, hi as int);
    assert(u =~= unsigned_part(t@));
    if eq_ignore_case_in(t, a, hi, &word_inf_vec()) || eq_ignore_case_in(t, a, hi, &word_infinity_vec())
        || eq_ignore_case_in(t, a, hi, &word_nan_vec()) {
        return true;
    }
    let mut e = a;
    while e < hi && !(t[e] == 'e' || t[e] == 'E')
        invariant
            a <= e <= hi == t.len(),
            u == t@.subrange(a as int, hi as int),
            forall|j: int| 0 <= j < e - a ==> !is_exp_marker(#[trigger] u[j]),
        decreases hi - e,
    {
        assert(u[e - a] == t@[e as int]);
        e = e + 1;
    }
    proof {
        if e < hi {
            assert(u[e - a] == t@[e as int]);
        }
        lemma_find_exp(u, e - a);
    }
    if e < hi {
        assert(u.take(e - a) =~= t@.subrange(a as int, e as int));
        assert(u.skip(e - a + 1) =~= t@.subrange(e + 1, hi as int));
        mantissa_in(t, a, e) && exponent_in(t, e + 1, hi)
    } else {
        mantissa_in(t, a, hi)
    }
}

/// Whether `f64::from_str` accepts `text`.
pub fn is_float_text(text: &str) -> (r: bool)
    ensures
        r == is_float_literal(text@),
{
    is_float_literal_chars(&chars_of(text))
}

/// `o` is absent or text that `f64::from_str` accepts.
pub open spec fn opt_float_text(o: Option<Seq<char>>) -> bool {
    o matches Some(t) ==> is_float_literal(t)
}

/// Whether `o` is absent or text that `f64::from_str` accepts.
pub fn opt_is_float_text(o: &Option<String>) -> (r: bool)
    ensures
        r == opt_float_text(crate::text::opt_view(*o)),
{
    match o {
        Some(t) => is_float_text(t.as_str()),
        None => true,
    }
}

} // verus!

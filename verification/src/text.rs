//! Character-level text model shared by the parsers.
//!
//! Text is handled as a sequence of Unicode scalar values (`Seq<char>`), the
//! view that vstd gives `str` and `String`. The spec functions here describe
//! the handful of `str` operations the parsers rely on (`lines`, `trim`,
//! `split_once`, `split(..).nth(1)`, `split_whitespace().next()`,
//! `to_ascii_lowercase().contains(..)`), and the executable helpers compute
//! them over index ranges of a `Vec<char>`.
use vstd::prelude::*;

verus! {

/// `char::is_whitespace`: the Unicode `White_Space` property.
pub open spec fn is_ws(c: char) -> bool {
    ||| ('\u{9}' <= c && c <= '\u{d}')
    ||| c == ' '
    ||| c == '\u{85}'
    ||| c == '\u{a0}'
    ||| c == '\u{1680}'
    ||| ('\u{2000}' <= c && c <= '\u{200a}')
    ||| c == '\u{2028}'
    ||| c == '\u{2029}'
    ||| c == '\u{202f}'
    ||| c == '\u{205f}'
    ||| c == '\u{3000}'
}

/// `char::is_ascii_digit`.
pub open spec fn is_digit(c: char) -> bool {
    '0' <= c && c <= '9'
}

/// The numeric value of an ASCII digit.
pub open spec fn digit_value(c: char) -> int {
    (c as int) - ('0' as int)
}

/// `char::to_ascii_lowercase`.
pub open spec fn ascii_lower(c: char) -> char {
    if 'A' <= c && c <= 'Z' {
        ((c as u32) + 32) as char
    } else {
        c
    }
}

/// `needle` (written in lower case) occurs in the ASCII-lowercased `hay` at `i`.
pub open spec fn matches_at(hay: Seq<char>, needle: Seq<char>, i: int) -> bool {
    &&& 0 <= i
    &&& i + needle.len() <= hay.len()
    &&& forall|j: int| 0 <= j < needle.len() ==> ascii_lower(#[trigger] hay[i + j]) == needle[j]
}

/// `hay.to_ascii_lowercase().contains(needle)` for a lower-case `needle`.
pub open spec fn contains_lower(hay: Seq<char>, needle: Seq<char>) -> bool {
    exists|i: int| #[trigger] matches_at(hay, needle, i)
}

/// `a` equals the lower-case `word` up to ASCII case.
pub open spec fn eq_ignore_case(a: Seq<char>, word: Seq<char>) -> bool {
    &&& a.len() == word.len()
    &&& forall|j: int| 0 <= j < a.len() ==> ascii_lower(#[trigger] a[j]) == word[j]
}

/// The ASCII digit for `d` (`0 <= d < 10`).
pub open spec fn digit_char(d: int) -> char {
    (48 + d) as char
}

/// The decimal representation of `n`, without leading zeros.
pub open spec fn decimal_text(n: nat) -> Seq<char>
    decreases n,
{
    if n < 10 {
        seq![digit_char(n as int)]
    } else {
        decimal_text(n / 10).push(digit_char((n % 10) as int))
    }
}

/// Index of the first occurrence of `c` in `s`.
pub open spec fn find_char(s: Seq<char>, c: char) -> Option<int>
    decreases s.len(),
{
    if s.len() == 0 {
        None
    } else if s[0] == c {
        Some(0)
    } else {
        match find_char(s.drop_first(), c) {
            Some(i) => Some(i + 1),
            None => None,
        }
    }
}

/// `s.split_once(c).map(|(_, rhs)| rhs)`.
pub open spec fn after_first(s: Seq<char>, c: char) -> Option<Seq<char>> {
    match find_char(s, c) {
        Some(i) => Some(s.skip(i + 1)),
        None => None,
    }
}

/// `s.split(c).nth(1)`: the text between the first and the second `c`.
pub open spec fn second_field(s: Seq<char>, c: char) -> Option<Seq<char>> {
    match after_first(s, c) {
        Some(rest) => match find_char(rest, c) {
            Some(j) => Some(rest.take(j)),
            None => Some(rest),
        },
        None => None,
    }
}

/// `str::trim_start`.
pub open spec fn trim_start(s: Seq<char>) -> Seq<char>
    decreases s.len(),
{
    if s.len() > 0 && is_ws(s[0]) {
        trim_start(s.drop_first())
    } else {
        s
    }
}

/// `str::trim_end`.
pub open spec fn trim_end(s: Seq<char>) -> Seq<char>
    decreases s.len(),
{
    if s.len() > 0 && is_ws(s.last()) {
        trim_end(s.drop_last())
    } else {
        s
    }
}

/// `str::trim`.
pub open spec fn trim(s: Seq<char>) -> Seq<char> {
    trim_end(trim_start(s))
}

/// Length of the leading run of non-whitespace characters.
pub open spec fn word_len(s: Seq<char>) -> nat
    decreases s.len(),
{
    if s.len() == 0 || is_ws(s[0]) {
        0
    } else {
        1 + word_len(s.drop_first())
    }
}

/// `s.split_whitespace().next()`.
pub open spec fn first_word(s: Seq<char>) -> Option<Seq<char>> {
    let t = trim_start(s);
    if t.len() == 0 {
        None
    } else {
        Some(t.take(word_len(t) as int))
    }
}

/// Removes one trailing carriage return, as `str::lines` does before a `\n`.
pub open spec fn strip_cr(line: Seq<char>) -> Seq<char> {
    if line.len() > 0 && line.last() == '\r' {
        line.drop_last()
    } else {
        line
    }
}

/// `str::lines` of `s`, where `cur` is the part of the current line read so far.
pub open spec fn lines_from(s: Seq<char>, cur: Seq<char>) -> Seq<Seq<char>>
    decreases s.len(),
{
    if s.len() == 0 {
        if cur.len() == 0 {
            seq![]
        } else {
            seq![cur]
        }
    } else if s[0] == '\n' {
        seq![strip_cr(cur)] + lines_from(s.drop_first(), seq![])
    } else {
        lines_from(s.drop_first(), cur.push(s[0]))
    }
}

/// `str::lines`: lines end at `\n` (with a preceding `\r` removed); the last
/// line ending is optional.
pub open spec fn lines(s: Seq<char>) -> Seq<Seq<char>> {
    lines_from(s, seq![])
}

/// The value of a decimal digit string.
pub open spec fn decimal_value(d: Seq<char>) -> int
    decreases d.len(),
{
    if d.len() == 0 {
        0
    } else {
        decimal_value(d.drop_last()) * 10 + (d.last() as int - '0' as int)
    }
}

/// `s` without a leading `+`.
pub open spec fn plus_stripped(s: Seq<char>) -> Seq<char> {
    if s.len() > 0 && s[0] == '+' {
        s.drop_first()
    } else {
        s
    }
}

pub open spec fn all_digits(d: Seq<char>) -> bool {
    forall|j: int| 0 <= j < d.len() ==> is_digit(#[trigger] d[j])
}

/// How the standard library reads an unsigned integer type whose largest
/// value is `bound`: an optional `+`, then one or more ASCII digits whose
/// value is at most `bound`.
pub open spec fn parse_decimal(s: Seq<char>, bound: int) -> Option<int> {
    let d = plus_stripped(s);
    if d.len() > 0 && all_digits(d) && decimal_value(d) <= bound {
        Some(decimal_value(d))
    } else {
        None
    }
}

pub open spec fn opt_view(o: Option<String>) -> Option<Seq<char>> {
    match o {
        Some(s) => Some(s@),
        None => None,
    }
}

// ---------------------------------------------------------------------------
// Lemmas relating the recursive definitions to index-based scans.
pub proof fn lemma_find_char(s: Seq<char>, c: char, k: int)
    requires
        0 <= k <= s.len(),
        forall|j: int| 0 <= j < k ==> s[j] != c,
        k < s.len() ==> s[k] == c,
    ensures
        find_char(s, c) == (if k < s.len() {
            Some(k)
        } else {
            None::<int>
        }),
    decreases k,
{
    if s.len() > 0 && k > 0 {
        let t = s.drop_first();
        assert forall|j: int| 0 <= j < k - 1 implies t[j] != c by {
            assert(t[j] == s[j + 1]);
        }
        lemma_find_char(t, c, k - 1);
    }
}

pub proof fn lemma_find_char_bounds(s: Seq<char>, c: char)
    ensures
        find_char(s, c) matches Some(i) ==> 0 <= i < s.len() && s[i] == c && forall|j: int|
            0 <= j < i ==> s[j] != c,
        find_char(s, c) is None ==> forall|j: int| 0 <= j < s.len() ==> s[j] != c,
    decreases s.len(),
{
    if s.len() > 0 {
        lemma_find_char_bounds(s.drop_first(), c);
        if s[0] != c {
            assert forall|j: int| 1 <= j < s.len() implies s[j] == s.drop_first()[j - 1] by {}
        }
    }
}

pub proof fn lemma_trim_start(s: Seq<char>, k: int)
    requires
        0 <= k <= s.len(),
        forall|j: int| 0 <= j < k ==> is_ws(#[trigger] s[j]),
        k < s.len() ==> !is_ws(s[k]),
    ensures
        trim_start(s) == s.skip(k),
    decreases k,
{
    if k == 0 {
        assert(s.skip(0) =~= s);
    } else {
        let t = s.drop_first();
        assert forall|j: int| 0 <= j < k - 1 implies is_ws(#[trigger] t[j]) by {
            assert(t[j] == s[j + 1]);
        }
        lemma_trim_start(t, k - 1);
        assert(t.skip(k - 1) =~= s.skip(k));
    }
}

pub proof fn lemma_trim_end(s: Seq<char>, k: int)
    requires
        0 <= k <= s.len(),
        forall|j: int| k <= j < s.len() ==> is_ws(#[trigger] s[j]),
        k > 0 ==> !is_ws(s[k - 1]),
    ensures
        trim_end(s) == s.take(k),
    decreases s.len() - k,
{
    if k == s.len() {
        assert(s.take(k) =~= s);
    } else {
        let t = s.drop_last();
        assert forall|j: int| k <= j < t.len() implies is_ws(#[trigger] t[j]) by {
            assert(t[j] == s[j]);
        }
        assert(is_ws(s[s.len() - 1]));
        lemma_trim_end(t, k);
        assert(t.take(k) =~= s.take(k));
    }
}

pub proof fn lemma_word_len(s: Seq<char>, k: int)
    requires
        0 <= k <= s.len(),
        forall|j: int| 0 <= j < k ==> !is_ws(#[trigger] s[j]),
        k < s.len() ==> is_ws(s[k]),
    ensures
        word_len(s) == k,
    decreases k,
{
    if k > 0 {
        let t = s.drop_first();
        assert forall|j: int| 0 <= j < k - 1 implies !is_ws(#[trigger] t[j]) by {
            assert(t[j] == s[j + 1]);
        }
        lemma_word_len(t, k - 1);
    }
}

// ---------------------------------------------------------------------------
// Executable helpers over index ranges of a character vector.
/// The characters of `s`, in order.
pub(crate) fn chars_of(s: &str) -> (v: Vec<char>)
    ensures
        v@ == s@,
{
    let mut v: Vec<char> = Vec::new();
    let ghost whole = s@;
    for ch in it: s.chars()
        invariant
            it.seq() == whole,
            v@ == whole.take(it.index() as int),
    {
        v.push(ch);
    }
    v
}

/// Calls `String::push`: the string afterwards holds its old characters
/// followed by `c`.
#[verifier::external_body]
pub(crate) fn push_char(s: &mut String, c: char)
    ensures
        final(s)@ == old(s)@.push(c),
{
    s.push(c);
}

/// A new `String` holding `v[lo..hi]`.
pub(crate) fn string_of(v: &Vec<char>, lo: usize, hi: usize) -> (s: String)
    requires
        lo <= hi <= v.len(),
    ensures
        s@ == v@.subrange(lo as int, hi as int),
{
    let mut s = String::new();
    let mut i = lo;
    while i < hi
        invariant
            lo <= i <= hi <= v.len(),
            s@ == v@.subrange(lo as int, i as int),
        decreases hi - i,
    {
        push_char(&mut s, v[i]);
        assert(v@.subrange(lo as int, i + 1) =~= v@.subrange(lo as int, i as int).push(v@[i as int]));
        i = i + 1;
    }
    s
}

pub(crate) fn is_ws_char(c: char) -> (r: bool)
    ensures
        r == is_ws(c),
{
    ('\u{9}' <= c && c <= '\u{d}') || c == ' ' || c == '\u{85}' || c == '\u{a0}' || c == '\u{1680}'
        || ('\u{2000}' <= c && c <= '\u{200a}') || c == '\u{2028}' || c == '\u{2029}' || c
        == '\u{202f}' || c == '\u{205f}' || c == '\u{3000}'
}

pub(crate) fn lower_char(c: char) -> (r: char)
    ensures
        r == ascii_lower(c),
{
    if 'A' <= c && c <= 'Z' {
        ((c as u8) + 32) as char
    } else {
        c
    }
}

/// Whether `v[lo..hi]` equals the lower-case `word` up to ASCII case.
pub(crate) fn eq_ignore_case_in(v: &Vec<char>, lo: usize, hi: usize, word: &Vec<char>) -> (r: bool)
    requires
        lo <= hi <= v.len(),
    ensures
        r == eq_ignore_case(v@.subrange(lo as int, hi as int), word@),
{
    let ghost s = v@.subrange(lo as int, hi as int);
    if hi - lo != word.len() {
        return false;
    }
    let mut j: usize = 0;
    while j < word.len()
        invariant
            lo <= hi <= v.len(),
            hi - lo == word.len(),
            j <= word.len(),
            s == v@.subrange(lo as int, hi as int),
            forall|q: int| 0 <= q < j ==> ascii_lower(#[trigger] s[q]) == word@[q],
        decreases word.len() - j,
    {
        assert(s[j as int] == v@[lo + j]);
        if lower_char(v[lo + j]) != word[j] {
            return false;
        }
        j = j + 1;
    }
    true
}

proof fn lemma_prefix_exceeds(d: Seq<char>, n: int, bound: int)
    requires
        0 <= n <= d.len(),
        bound >= 0,
        decimal_value(d.take(n)) > bound,
        forall|j: int| 0 <= j < n ==> is_digit(#[trigger] d[j]),
    ensures
        !all_digits(d) || decimal_value(d) > bound,
    decreases d.len() - n,
{
    if n < d.len() && all_digits(d) {
        assert(d.take(n + 1).drop_last() =~= d.take(n));
        assert(is_digit(d[n]));
        lemma_prefix_exceeds(d, n + 1, bound);
    } else if n == d.len() {
        assert(d.take(n) =~= d);
    }
}

/// Reads `v[lo..hi]` as an unsigned integer of at most `bound`.
pub(crate) fn parse_decimal_in(v: &Vec<char>, lo: usize, hi: usize, bound: usize) -> (r: Option<
    usize,
>)
    requires
        lo <= hi <= v.len(),
        bound >= 9,
    ensures
        r matches Some(x) ==> x <= bound && parse_decimal(v@.subrange(lo as int, hi as int), bound as int)
            == Some(x as int),
        r is None ==> parse_decimal(v@.subrange(lo as int, hi as int), bound as int) is None,
{
    let ghost s = v@.subrange(lo as int, hi as int);
    let mut a: usize = lo;
    if lo < hi && v[lo] == '+' {
        a = lo + 1;
    }
    let ghost d = v@.subrange(a as int, hi as int);
    assert(d =~= plus_stripped(s));
    let ghost parsed = parse_decimal(s, bound as int);
    let mut value: usize = 0;
    let mut ok = a < hi;
    let mut k = a;
    assert(d.take(0) =~= Seq::<char>::empty());
    while ok && k < hi
        invariant
            lo <= a <= k <= hi <= v.len(),
            bound >= 9,
            d == v@.subrange(a as int, hi as int),
            parsed == parse_decimal(s, bound as int),
            s == v@.subrange(lo as int, hi as int),
            d == plus_stripped(s),
            ok ==> forall|j: int| 0 <= j < k - a ==> is_digit(#[trigger] d[j]),
            ok ==> value == decimal_value(d.take(k - a)),
            ok ==> value <= bound,
            !ok ==> parsed is None,
            ok ==> a < hi,
        decreases hi - k,
    {
        let c = v[k];
        assert(d[k - a] == c);
        if !('0' <= c && c <= '9') {
            assert(!is_digit(d[k - a]));
            ok = false;
        } else {
            let digit = (c as u32 - '0' as u32) as usize;
            assert(d.take(k + 1 - a).drop_last() =~= d.take(k - a));
            assert(d.take(k + 1 - a).last() == c);
            assert(decimal_value(d.take(k + 1 - a)) == value * 10 + digit);
            assert forall|j: int| 0 <= j < k + 1 - a implies is_digit(#[trigger] d[j]) by {
                if j == k - a {
                }
            }
            if value > (bound - digit) / 10 {
                proof {
                    assert(decimal_value(d.take(k + 1 - a)) > bound) by (nonlinear_arith)
                        requires
                            decimal_value(d.take(k + 1 - a)) == value * 10 + digit,
                            value > (bound - digit) / 10,
                            digit <= 9,
                            bound >= 9,
                    ;
                    lemma_prefix_exceeds(d, k + 1 - a, bound as int);
                }
                ok = false;
            } else {
                assert(value * 10 + digit <= bound) by (nonlinear_arith)
                    requires
                        value <= (bound - digit) / 10,
                        digit <= 9,
                        bound >= 9,
                ;
                value = value * 10 + digit;
            }
        }
        k = k + 1;
    }
    if ok {
        assert(d.take(k - a) =~= d);
        Some(value)
    } else {
        None
    }
}

/// The decimal representation of `n`.
pub(crate) fn decimal_string(n: usize) -> (s: String)
    ensures
        s@ == decimal_text(n as nat),
    decreases n,
{
    let d = n % 10;
    let c = ((d as u8) + 48) as char;
    assert(c == digit_char(d as int));
    if n < 10 {
        let mut s = String::new();
        push_char(&mut s, c);
        assert(s@ =~= seq![c]);
        s
    } else {
        let mut s = decimal_string(n / 10);
        push_char(&mut s, c);
        s
    }
}

/// The first index `k` in `lo..hi` with `v[k] == c`.
pub(crate) fn find_in(v: &Vec<char>, lo: usize, hi: usize, c: char) -> (r: Option<usize>)
    requires
        lo <= hi <= v.len(),
    ensures
        r matches Some(k) ==> lo <= k < hi && find_char(v@.subrange(lo as int, hi as int), c)
            == Some(k - lo),
        r is None ==> find_char(v@.subrange(lo as int, hi as int), c) is None,
{
    let ghost s = v@.subrange(lo as int, hi as int);
    let mut k = lo;
    while k < hi
        invariant
            lo <= k <= hi <= v.len(),
            s == v@.subrange(lo as int, hi as int),
            forall|j: int| lo <= j < k ==> v@[j] != c,
        decreases hi - k,
    {
        if v[k] == c {
            proof {
                lemma_find_char(s, c, k - lo);
            }
            return Some(k);
        }
        k = k + 1;
    }
    proof {
        lemma_find_char(s, c, k - lo);
    }
    None
}

/// The range of `v[lo..hi]` left by `trim`.
pub(crate) fn trim_range(v: &Vec<char>, lo: usize, hi: usize) -> (r: (usize, usize))
    requires
        lo <= hi <= v.len(),
    ensures
        lo <= r.0 <= r.1 <= hi,
        v@.subrange(r.0 as int, r.1 as int) == trim(v@.subrange(lo as int, hi as int)),
{
    let ghost s = v@.subrange(lo as int, hi as int);
    let mut a = lo;
    while a < hi && is_ws_char(v[a])
        invariant
            lo <= a <= hi <= v.len(),
            forall|j: int| lo <= j < a ==> is_ws(#[trigger] v@[j]),
        decreases hi - a,
    {
        a = a + 1;
    }
    proof {
        assert forall|j: int| 0 <= j < a - lo implies is_ws(#[trigger] s[j]) by {
            assert(s[j] == v@[lo + j]);
        }
        lemma_trim_start(s, a - lo);
    }
    let mut b = hi;
    while b > a && is_ws_char(v[b - 1])
        invariant
            lo <= a <= b <= hi <= v.len(),
            forall|j: int| b <= j < hi ==> is_ws(#[trigger] v@[j]),
        decreases b - a,
    {
        b = b - 1;
    }
    proof {
        let t = s.skip(a - lo);
        assert(t =~= v@.subrange(a as int, hi as int));
        assert forall|j: int| b - a <= j < t.len() implies is_ws(#[trigger] t[j]) by {
            assert(t[j] == v@[a + j]);
        }
        lemma_trim_end(t, b - a);
        assert(t.take(b - a) =~= v@.subrange(a as int, b as int));
    }
    (a, b)
}

/// Whether the lower-case `needle` occurs in the ASCII-lowercased `v[lo..hi]`.
pub(crate) fn contains_lower_in(v: &Vec<char>, lo: usize, hi: usize, needle: &Vec<char>) -> (r: bool)
    requires
        lo <= hi <= v.len(),
    ensures
        r == contains_lower(v@.subrange(lo as int, hi as int), needle@),
{
    let ghost s = v@.subrange(lo as int, hi as int);
    let n = needle.len();
    if n > hi - lo {
        assert forall|i: int| !#[trigger] matches_at(s, needle@, i) by {}
        return false;
    }
    let mut i: usize = lo;
    while i <= hi - n
        invariant
            lo <= hi <= v.len(),
            n == needle.len(),
            n <= hi - lo,
            lo <= i <= hi - n + 1,
            s == v@.subrange(lo as int, hi as int),
            forall|p: int| 0 <= p < i - lo ==> !#[trigger] matches_at(s, needle@, p),
        decreases hi - n + 1 - i,
    {
        let mut j: usize = 0;
        let mut ok = true;
        while j < n
            invariant
                lo <= i <= hi - n,
                n == needle.len(),
                hi <= v.len(),
                j <= n,
                ok ==> forall|q: int| 0 <= q < j ==> ascii_lower(v@[i + q]) == needle@[q],
                !ok ==> exists|q: int| 0 <= q < n && ascii_lower(v@[i + q]) != needle@[q],
            decreases n - j,
        {
            if ok && lower_char(v[i + j]) != needle[j] {
                ok = false;
            }
            j = j + 1;
        }
        if ok {
            proof {
                assert forall|q: int| 0 <= q < needle@.len() implies ascii_lower(
                    #[trigger] s[(i - lo) + q],
                ) == needle@[q] by {
                    assert(s[(i - lo) + q] == v@[i + q]);
                }
                assert(matches_at(s, needle@, i - lo));
            }
            return true;
        }
        proof {
            let q = choose|q: int| 0 <= q < n && ascii_lower(v@[i + q]) != needle@[q];
            assert(s[(i - lo) + q] == v@[i + q]);
            assert(!matches_at(s, needle@, i - lo));
        }
        i = i + 1;
    }
    proof {
        assert forall|p: int| !#[trigger] matches_at(s, needle@, p) by {
            if 0 <= p < i - lo {
            }
        }
    }
    false
}

} // verus!

//! Metadata that slicers write into G-code comments.
//!
//! Recognised comment lines (case-insensitive):
//!
//! ```text
//! ; filament used [g] = 4.94
//! ; filament used [mm] = 1234.56
//! ; filament_type = PLA
//! ; estimated printing time (normal mode) = 15m 32s
//! ```
use vstd::prelude::*;

use crate::float_text::{is_float_literal, is_float_literal_chars};
use crate::model::{
    empty_filament, empty_geometry, metadata_numbers_valid, FilamentStats, FilamentView, GeometryStats, MetadataView,
    ModelKind, ModelMetadata,
};
use crate::text::{
    after_first, all_digits, ascii_lower, chars_of, contains_lower, contains_lower_in, decimal_value,
    digit_value, find_in, first_word, is_digit, is_ws, is_ws_char, lemma_find_char, lemma_trim_end,
    lemma_trim_start, lemma_word_len, lines, lines_from, matches_at, opt_view, second_field,
    string_of, strip_cr, trim, trim_range,
};

verus! {

pub open spec fn needle_grams() -> Seq<char> {
    seq!['f', 'i', 'l', 'a', 'm', 'e', 'n', 't', ' ', 'u', 's', 'e', 'd', ' ', '[', 'g', ']']
}

pub open spec fn needle_millimetres() -> Seq<char> {
    seq!['f', 'i', 'l', 'a', 'm', 'e', 'n', 't', ' ', 'u', 's', 'e', 'd', ' ', '[', 'm', 'm', ']']
}

pub open spec fn needle_type() -> Seq<char> {
    seq!['f', 'i', 'l', 'a', 'm', 'e', 'n', 't', '_', 't', 'y', 'p', 'e']
}

pub open spec fn needle_time() -> Seq<char> {
    seq![
        'e', 's', 't', 'i', 'm', 'a', 't', 'e', 'd', ' ', 'p', 'r', 'i', 'n', 't', 'i', 'n', 'g',
        ' ', 't', 'i', 'm', 'e',
    ]
}

fn needle_grams_vec() -> (v: Vec<char>)
    ensures
        v@ == needle_grams(),
{
    vec!['f', 'i', 'l', 'a', 'm', 'e', 'n', 't', ' ', 'u', 's', 'e', 'd', ' ', '[', 'g', ']']
}

fn needle_millimetres_vec() -> (v: Vec<char>)
    ensures
        v@ == needle_millimetres(),
{
    vec!['f', 'i', 'l', 'a', 'm', 'e', 'n', 't', ' ', 'u', 's', 'e', 'd', ' ', '[', 'm', 'm', ']']
}

fn needle_type_vec() -> (v: Vec<char>)
    ensures
        v@ == needle_type(),
{
    vec!['f', 'i', 'l', 'a', 'm', 'e', 'n', 't', '_', 't', 'y', 'p', 'e']
}

fn needle_time_vec() -> (v: Vec<char>)
    ensures
        v@ == needle_time(),
{
    vec![
        'e', 's', 't', 'i', 'm', 'a', 't', 'e', 'd', ' ', 'p', 'r', 'i', 'n', 't', 'i', 'n', 'g',
        ' ', 't', 'i', 'm', 'e',
    ]
}

// ---------------------------------------------------------------------------
// Numbers after `=`
/// `t` with every `,` replaced by `.`.
pub open spec fn comma_to_dot(t: Seq<char>) -> Seq<char> {
    t.map_values(|c: char| if c == ',' { '.' } else { c })
}

/// The first word after the first `=`, with decimal commas turned into
/// points, provided that `f64::from_str` accepts it.
pub open spec fn number_after_equals(line: Seq<char>) -> Option<Seq<char>> {
    match after_first(line, '=') {
        None => None,
        Some(rhs) => match first_word(rhs) {
            None => None,
            Some(w) => if is_float_literal(comma_to_dot(w)) {
                Some(comma_to_dot(w))
            } else {
                None
            },
        },
    }
}

// ---------------------------------------------------------------------------
// Print time
/// Seconds per unit letter of a print-time duration.
pub open spec fn time_unit(c: char) -> int {
    if c == 'h' || c == 'H' {
        3600
    } else if c == 'm' || c == 'M' {
        60
    } else if c == 's' || c == 'S' {
        1
    } else {
        0
    }
}

/// State of the duration scan: (seconds so far, value of the pending digit
/// run, whether a digit run is pending, whether a run too large for `u32`
/// ended the scan).
pub type TimeScan = (int, int, bool, bool);

pub open spec fn scan_start() -> TimeScan {
    (0, 0, false, false)
}

/// One character of the duration: digits extend the pending run; another
/// character ends a pending run, adding it in the unit that character names
/// (nothing for an unknown unit), or failing if the run does not fit a `u32`.
pub open spec fn scan_step(st: TimeScan, c: char) -> TimeScan {
    if st.3 {
        st
    } else if is_digit(c) {
        (st.0, st.1 * 10 + digit_value(c), true, false)
    } else if !st.2 {
        st
    } else if st.1 > u32::MAX {
        (st.0, st.1, st.2, true)
    } else {
        (st.0 + st.1 * time_unit(c), 0, false, false)
    }
}

pub open spec fn scan_time(t: Seq<char>, st: TimeScan) -> TimeScan
    decreases t.len(),
{
    if t.len() == 0 {
        st
    } else {
        scan_time(t.drop_first(), scan_step(st, t[0]))
    }
}

/// The seconds counted at the end of the scan: a trailing digit run that fits
/// a `u32` counts as seconds.
pub open spec fn final_total(st: TimeScan) -> int {
    if !st.3 && st.2 && st.1 <= u32::MAX {
        st.0 + st.1
    } else {
        st.0
    }
}

/// The duration text of a print-time line: the trimmed text after the first
/// `=` of a line that mentions "estimated printing time".
pub open spec fn time_text(line: Seq<char>) -> Option<Seq<char>> {
    if contains_lower(line, needle_time()) {
        match after_first(line, '=') {
            Some(rhs) => Some(trim(rhs)),
            None => None,
        }
    } else {
        None
    }
}

/// The sum never leaves the `u32` range while the line is read.
pub open spec fn print_time_fits(line: Seq<char>) -> bool {
    match time_text(line) {
        Some(t) => final_total(scan_time(t, scan_start())) <= u32::MAX,
        None => true,
    }
}

/// The print time of a line in seconds: absent when the line is no print-time
/// line, when a digit run too large for `u32` is followed by another
/// character, or when the sum is zero.
pub open spec fn print_time_of(line: Seq<char>) -> Option<int> {
    match time_text(line) {
        Some(t) => {
            let f = scan_time(t, scan_start());
            if f.3 || final_total(f) == 0 {
                None
            } else {
                Some(final_total(f))
            }
        },
        None => None,
    }
}

proof fn lemma_scan_failed(t: Seq<char>, st: TimeScan)
    requires
        st.3,
    ensures
        scan_time(t, st) == st,
    decreases t.len(),
{
    if t.len() > 0 {
        lemma_scan_failed(t.drop_first(), st);
    }
}

proof fn lemma_scan_monotone(t: Seq<char>, st: TimeScan)
    requires
        st.1 >= 0,
    ensures
        scan_time(t, st).0 >= st.0,
        scan_time(t, st).1 >= 0,
        final_total(scan_time(t, st)) >= scan_time(t, st).0,
    decreases t.len(),
{
    if t.len() > 0 {
        let c = t[0];
        if is_digit(c) && !st.3 {
            assert(digit_value(c) >= 0);
        }
        lemma_scan_monotone(t.drop_first(), scan_step(st, c));
    }
}

proof fn lemma_scan_unfold(t: Seq<char>, k: int, st: TimeScan)
    requires
        0 <= k < t.len(),
    ensures
        scan_time(t.skip(k), st) == scan_time(t.skip(k + 1), scan_step(st, t[k])),
{
    assert(t.skip(k).drop_first() =~= t.skip(k + 1));
}

/// Outcome of reading a print-time line.
pub enum TimeReading {
    /// The line holds no usable duration, or the duration has this many seconds.
    Seconds(Option<u32>),
    /// The sum of the duration leaves the `u32` range.
    Overflow,
}

/// Reads the print time of the line `v[lo..hi]`.
fn print_time_in(v: &Vec<char>, lo: usize, hi: usize) -> (r: TimeReading)
    requires
        lo <= hi <= v.len(),
    ensures
        match r {
            TimeReading::Overflow => !print_time_fits(v@.subrange(lo as int, hi as int)),
            TimeReading::Seconds(s) => {
                &&& print_time_fits(v@.subrange(lo as int, hi as int))
                &&& match print_time_of(v@.subrange(lo as int, hi as int)) {
                    Some(n) => s == Some(n as u32),
                    None => s is None,
                }
            },
        },
{
    let ghost line = v@.subrange(lo as int, hi as int);
    if !contains_lower_in(v, lo, hi, &needle_time_vec()) {
        return TimeReading::Seconds(None);
    }
    let eq = match find_in(v, lo, hi, '=') {
        Some(k) => k,
        None => {
            return TimeReading::Seconds(None);
        },
    };
    assert(line.skip(eq - lo + 1) =~= v@.subrange(eq + 1, hi as int));
    let (a, b) = trim_range(v, eq + 1, hi);
    let ghost t = v@.subrange(a as int, b as int);
    assert(time_text(line) == Some(t));
    let ghost whole = scan_time(t, scan_start());
    let mut total: u64 = 0;
    let mut cur: u64 = 0;
    let mut has = false;
    let ghost mut cur_int: int = 0;
    let mut k = a;
    assert(t.skip(0) =~= t);
    while k < b
        invariant
            a <= k <= b <= v.len(),
            t == v@.subrange(a as int, b as int),
            whole == scan_time(t, scan_start()),
            whole == scan_time(t.skip(k - a), (total as int, cur_int, has, false)),
            cur_int >= 0,
            total <= u32::MAX,
            cur == (if cur_int > u32::MAX {
                u32::MAX as int + 1
            } else {
                cur_int
            }),
            has || cur_int == 0,
            line == v@.subrange(lo as int, hi as int),
            time_text(line) == Some(t),
        decreases b - k,
    {
        let c = v[k];
        assert(t[k - a] == c);
        let ghost st: TimeScan = (total as int, cur_int, has, false);
        proof {
            lemma_scan_unfold(t, k - a, st);
        }
        if '0' <= c && c <= '9' {
            let d = (c as u64) - ('0' as u64);
            proof {
                cur_int = cur_int * 10 + digit_value(c);
            }
            if cur > u32::MAX as u64 {
                cur = u32::MAX as u64 + 1;
            } else {
                cur = cur * 10 + d;
                if cur > u32::MAX as u64 {
                    cur = u32::MAX as u64 + 1;
                }
            }
            has = true;
        } else if has {
            if cur > u32::MAX as u64 {
                proof {
                    lemma_scan_failed(t.skip(k - a + 1), (total as int, cur_int, has, true));
                }
                assert(whole.3);
                return TimeReading::Seconds(None);
            }
            let unit: u64 = if c == 'h' || c == 'H' {
                3600
            } else if c == 'm' || c == 'M' {
                60
            } else if c == 's' || c == 'S' {
                1
            } else {
                0
            };
            assert(unit == time_unit(c));
            assert(cur * unit <= (u32::MAX as u64) * 3600) by (nonlinear_arith)
                requires
                    cur <= u32::MAX as u64,
                    unit <= 3600,
            ;
            let next = total + cur * unit;
            let ghost st2: TimeScan = (next as int, 0, false, false);
            proof {
                lemma_scan_monotone(t.skip(k - a + 1), st2);
            }
            if next > u32::MAX as u64 {
                return TimeReading::Overflow;
            }
            total = next;
            cur = 0;
            has = false;
            proof {
                cur_int = 0;
            }
        }
        k = k + 1;
    }
    assert(t.skip(k - a) =~= Seq::<char>::empty());
    if has && cur <= u32::MAX as u64 {
        let sum = total + cur;
        if sum > u32::MAX as u64 {
            return TimeReading::Overflow;
        }
        if sum == 0 {
            TimeReading::Seconds(None)
        } else {
            TimeReading::Seconds(Some(sum as u32))
        }
    } else if total == 0 {
        TimeReading::Seconds(None)
    } else {
        TimeReading::Seconds(Some(total as u32))
    }
}

// ---------------------------------------------------------------------------
// Whole G-code files
/// `line` is a comment line, the only kind that carries metadata.
pub open spec fn is_comment(line: Seq<char>) -> bool {
    line.len() > 0 && line[0] == ';'
}

/// The trimmed text between the first and the second `=`.
pub open spec fn trimmed_second_field(line: Seq<char>) -> Option<Seq<char>> {
    match second_field(line, '=') {
        Some(f) => Some(trim(f)),
        None => None,
    }
}

/// What one line contributes to the filament statistics.
pub open spec fn line_step(st: FilamentView, line: Seq<char>) -> FilamentView {
    if !is_comment(line) {
        st
    } else {
        let st1 = if contains_lower(line, needle_grams()) {
            match number_after_equals(line) {
                Some(v) => FilamentView { filament_used_g: Some(v), ..st },
                None => st,
            }
        } else if contains_lower(line, needle_millimetres()) {
            match number_after_equals(line) {
                Some(v) => FilamentView { filament_used_mm: Some(v), ..st },
                None => st,
            }
        } else if contains_lower(line, needle_type()) {
            FilamentView { filament_type: trimmed_second_field(line), ..st }
        } else if contains_lower(line, needle_time()) {
            FilamentView { print_time_human: trimmed_second_field(line), ..st }
        } else {
            st
        };
        match print_time_of(line) {
            Some(n) => FilamentView { print_time_seconds: Some(n as u32), ..st1 },
            None => st1,
        }
    }
}

pub open spec fn fold_lines(ls: Seq<Seq<char>>, st: FilamentView) -> FilamentView
    decreases ls.len(),
{
    if ls.len() == 0 {
        st
    } else {
        fold_lines(ls.drop_first(), line_step(st, ls[0]))
    }
}

pub open spec fn lines_fit(ls: Seq<Seq<char>>) -> bool
    decreases ls.len(),
{
    if ls.len() == 0 {
        true
    } else {
        (is_comment(ls[0]) ==> print_time_fits(ls[0])) && lines_fit(ls.drop_first())
    }
}

/// The filament statistics that the comment lines of `text` describe, read
/// line by line, later lines overriding earlier ones.
pub open spec fn gcode_filament(text: Seq<char>) -> FilamentView {
    fold_lines(lines(text), empty_filament())
}

/// No print-time comment of `text` sums beyond the `u32` range.
pub open spec fn gcode_times_fit(text: Seq<char>) -> bool {
    lines_fit(lines(text))
}

/// `v[lo..hi]` after its first `=`, as a range.
fn number_after_equals_in(v: &Vec<char>, lo: usize, hi: usize) -> (r: Option<String>)
    requires
        lo <= hi <= v.len(),
    ensures
        opt_view(r) == number_after_equals(v@.subrange(lo as int, hi as int)),
{
    let ghost line = v@.subrange(lo as int, hi as int);
    let eq = match find_in(v, lo, hi, '=') {
        Some(k) => k,
        None => {
            return None;
        },
    };
    let ghost rhs = v@.subrange(eq + 1, hi as int);
    assert(line.skip(eq - lo + 1) =~= rhs);
    let mut a = eq + 1;
    while a < hi && is_ws_char(v[a])
        invariant
            eq + 1 <= a <= hi <= v.len(),
            forall|j: int| eq + 1 <= j < a ==> is_ws(#[trigger] v@[j]),
        decreases hi - a,
    {
        a = a + 1;
    }
    proof {
        assert forall|j: int| 0 <= j < a - (eq + 1) implies is_ws(#[trigger] rhs[j]) by {
            assert(rhs[j] == v@[eq + 1 + j]);
        }
        if a < hi {
            assert(rhs[a - (eq + 1)] == v@[a as int]);
        }
        lemma_trim_start(rhs, a - (eq + 1));
        assert(rhs.skip(a - (eq + 1)) =~= v@.subrange(a as int, hi as int));
    }
    if a == hi {
        return None;
    }
    let mut w = a;
    while w < hi && !is_ws_char(v[w])
        invariant
            a <= w <= hi <= v.len(),
            forall|j: int| a <= j < w ==> !is_ws(#[trigger] v@[j]),
        decreases hi - w,
    {
        w = w + 1;
    }
    let ghost tw = v@.subrange(a as int, hi as int);
    proof {
        assert forall|j: int| 0 <= j < w - a implies !is_ws(#[trigger] tw[j]) by {
            assert(tw[j] == v@[a + j]);
        }
        if w < hi {
            assert(tw[w - a] == v@[w as int]);
        }
        lemma_word_len(tw, w - a);
        assert(tw.take(w - a) =~= v@.subrange(a as int, w as int));
    }
    let ghost word = v@.subrange(a as int, w as int);
    let mut token: Vec<char> = Vec::new();
    let mut k = a;
    while k < w
        invariant
            a <= k <= w <= v.len(),
            word == v@.subrange(a as int, w as int),
            token@ == comma_to_dot(word).take(k - a),
        decreases w - k,
    {
        let c = v[k];
        token.push(if c == ',' { '.' } else { c });
        assert(token@ =~= comma_to_dot(word).take(k + 1 - a));
        k = k + 1;
    }
    assert(token@ =~= comma_to_dot(word));
    if is_float_literal_chars(&token) {
        Some(string_of(&token, 0, token.len()))
    } else {
        None
    }
}

/// `v[lo..hi]` between its first and second `=`, trimmed, as a new string.
fn trimmed_second_field_in(v: &Vec<char>, lo: usize, hi: usize) -> (r: Option<String>)
    requires
        lo <= hi <= v.len(),
    ensures
        opt_view(r) == trimmed_second_field(v@.subrange(lo as int, hi as int)),
{
    let ghost line = v@.subrange(lo as int, hi as int);
    let eq = match find_in(v, lo, hi, '=') {
        Some(k) => k,
        None => {
            return None;
        },
    };
    let ghost rest = v@.subrange(eq + 1, hi as int);
    assert(line.skip(eq - lo + 1) =~= rest);
    let end = match find_in(v, eq + 1, hi, '=') {
        Some(k) => {
            assert(rest.take(k - (eq + 1)) =~= v@.subrange(eq + 1, k as int));
            k
        },
        None => hi,
    };
    let (x, y) = trim_range(v, eq + 1, end);
    Some(string_of(v, x, y))
}

/// Applies one line `v[lo..hi]` to the statistics; `None` when the line's
/// print time does not fit a `u32`.
fn apply_line(v: &Vec<char>, lo: usize, hi: usize, st: &mut FilamentStats) -> (ok: bool)
    requires
        lo <= hi <= v.len(),
    ensures
        ok == (is_comment(v@.subrange(lo as int, hi as int)) ==> print_time_fits(
            v@.subrange(lo as int, hi as int),
        )),
        ok ==> final(st)@ == line_step(old(st)@, v@.subrange(lo as int, hi as int)),
{
    let ghost line = v@.subrange(lo as int, hi as int);
    if !(lo < hi && v[lo] == ';') {
        return true;
    }
    assert(line[0] == v@[lo as int]);
    if contains_lower_in(v, lo, hi, &needle_grams_vec()) {
        if let Some(n) = number_after_equals_in(v, lo, hi) {
            st.filament_used_g = Some(n);
        }
    } else if contains_lower_in(v, lo, hi, &needle_millimetres_vec()) {
        if let Some(n) = number_after_equals_in(v, lo, hi) {
            st.filament_used_mm = Some(n);
        }
    } else if contains_lower_in(v, lo, hi, &needle_type_vec()) {
        st.filament_type = trimmed_second_field_in(v, lo, hi);
    } else if contains_lower_in(v, lo, hi, &needle_time_vec()) {
        st.print_time_human = trimmed_second_field_in(v, lo, hi);
    }
    match print_time_in(v, lo, hi) {
        TimeReading::Overflow => false,
        TimeReading::Seconds(Some(n)) => {
            st.print_time_seconds = Some(n);
            true
        },
        TimeReading::Seconds(None) => true,
    }
}

proof fn lemma_fold_cons(x: Seq<char>, rest: Seq<Seq<char>>, st: FilamentView)
    ensures
        fold_lines(seq![x] + rest, st) == fold_lines(rest, line_step(st, x)),
        lines_fit(seq![x] + rest) == ((is_comment(x) ==> print_time_fits(x)) && lines_fit(rest)),
{
    assert((seq![x] + rest).drop_first() =~= rest);
    assert((seq![x] + rest)[0] == x);
}

/// Reads the statistics of all lines; `None` when some comment line's print
/// time does not fit a `u32`.
fn read_lines(v: &Vec<char>) -> (r: Option<FilamentStats>)
    ensures
        r is Some <==> gcode_times_fit(v@),
        r matches Some(f) ==> f@ == gcode_filament(v@),
{
    let ghost s = v@;
    let mut st = FilamentStats::default();
    let mut line_start: usize = 0;
    let mut i: usize = 0;
    let n = v.len();
    assert(s.skip(0) =~= s);
    assert(s.subrange(0, 0) =~= Seq::<char>::empty());
    while i < n
        invariant
            0 <= line_start <= i <= n == v.len(),
            s == v@,
            fold_lines(lines(s), empty_filament()) == fold_lines(
                lines_from(s.skip(i as int), s.subrange(line_start as int, i as int)),
                st@,
            ),
            gcode_times_fit(s) == lines_fit(
                lines_from(s.skip(i as int), s.subrange(line_start as int, i as int)),
            ),
        decreases n - i,
    {
        let ghost cur = s.subrange(line_start as int, i as int);
        let ghost rest = s.skip(i as int);
        assert(rest[0] == s[i as int]);
        assert(rest.drop_first() =~= s.skip(i + 1));
        if v[i] == '\n' {
            let end = if i > line_start && v[i - 1] == '\r' {
                i - 1
            } else {
                i
            };
            assert(strip_cr(cur) =~= s.subrange(line_start as int, end as int));
            assert(s.subrange((i + 1) as int, (i + 1) as int) =~= Seq::<char>::empty());
            proof {
                lemma_fold_cons(strip_cr(cur), lines_from(s.skip(i + 1), seq![]), st@);
            }
            let ok = apply_line(v, line_start, end, &mut st);
            if !ok {
                return None;
            }
            line_start = i + 1;
        } else {
            assert(cur.push(s[i as int]) =~= s.subrange(line_start as int, i + 1));
        }
        i = i + 1;
    }
    let ghost cur = s.subrange(line_start as int, i as int);
    assert(s.skip(i as int) =~= Seq::<char>::empty());
    if line_start < n {
        proof {
            lemma_fold_cons(cur, seq![], st@);
            assert(seq![cur] + Seq::<Seq<char>>::empty() =~= seq![cur]);
        }
        let ok = apply_line(v, line_start, n, &mut st);
        if !ok {
            return None;
        }
    }
    Some(st)
}

/// The measured quantities of a state are decimal text that `f64::from_str`
/// accepts.
pub open spec fn quantities_are_float_text(st: FilamentView) -> bool {
    &&& (st.filament_used_g matches Some(t) ==> is_float_literal(t))
    &&& (st.filament_used_mm matches Some(t) ==> is_float_literal(t))
    &&& st.solid_ratio_percent is None
}

proof fn lemma_fold_keeps_float_text(ls: Seq<Seq<char>>, st: FilamentView)
    requires
        quantities_are_float_text(st),
    ensures
        quantities_are_float_text(fold_lines(ls, st)),
    decreases ls.len(),
{
    if ls.len() > 0 {
        lemma_fold_keeps_float_text(ls.drop_first(), line_step(st, ls[0]));
    }
}

/// Every filament mass and length read from G-code is text that
/// `f64::from_str` accepts.
pub proof fn law_gcode_quantities_are_float_text(text: Seq<char>)
    ensures
        quantities_are_float_text(gcode_filament(text)),
        metadata_numbers_valid(
            MetadataView {
                kind: ModelKind::Gcode,
                geometry: empty_geometry(),
                filament: gcode_filament(text),
            },
        ),
{
    lemma_fold_keeps_float_text(lines(text), empty_filament());
}

/// A print time that is read is positive and fits a `u32`.
pub proof fn law_print_time_in_range(line: Seq<char>)
    requires
        print_time_fits(line),
    ensures
        print_time_of(line) matches Some(n) ==> 0 < n <= u32::MAX,
{
    if let Some(t) = time_text(line) {
        lemma_scan_monotone(t, scan_start());
    }
}

proof fn lemma_scan_push(t: Seq<char>, c: char, st: TimeScan)
    ensures
        scan_time(t.push(c), st) == scan_step(scan_time(t, st), c),
    decreases t.len(),
{
    assert(t.push(c)[0] == (if t.len() == 0 {
        c
    } else {
        t[0]
    }));
    if t.len() == 0 {
        assert(t.push(c).drop_first() =~= Seq::<char>::empty());
        assert(scan_time(Seq::<char>::empty(), scan_step(st, c)) == scan_step(st, c));
        assert(scan_time(t, st) == st);
    } else {
        assert(t.push(c).drop_first() =~= t.drop_first().push(c));
        assert(scan_time(t.push(c), st) == scan_time(t.drop_first().push(c), scan_step(st, t[0])));
        assert(scan_time(t, st) == scan_time(t.drop_first(), scan_step(st, t[0])));
        lemma_scan_push(t.drop_first(), c, scan_step(st, t[0]));
    }
}

proof fn lemma_scan_digits(d: Seq<char>, total: int)
    requires
        d.len() > 0,
        all_digits(d),
    ensures
        scan_time(d, (total, 0, false, false)) == (total, decimal_value(d), true, false),
    decreases d.len(),
{
    let init: TimeScan = (total, 0, false, false);
    let front = d.drop_last();
    assert(front.push(d.last()) =~= d);
    assert(is_digit(d[d.len() - 1]));
    lemma_scan_push(front, d.last(), init);
    if front.len() == 0 {
        assert(scan_time(front, init) == init);
        assert(decimal_value(front) == 0);
    } else {
        assert forall|j: int| 0 <= j < front.len() implies is_digit(#[trigger] front[j]) by {
            assert(front[j] == d[j]);
        }
        lemma_scan_digits(front, total);
    }
}

proof fn lemma_contains_in_longer(p: Seq<char>, rest: Seq<char>, needle: Seq<char>)
    requires
        contains_lower(p, needle),
    ensures
        contains_lower(p + rest, needle),
{
    let i = choose|i: int| matches_at(p, needle, i);
    assert forall|j: int| 0 <= j < needle.len() implies ascii_lower(#[trigger] (p + rest)[i + j])
        == needle[j] by {
        assert((p + rest)[i + j] == p[i + j]);
    }
    assert(matches_at(p + rest, needle, i));
}

/// Seconds per unit of a print time: in an "estimated printing time" line
/// `p=` followed by a number `d` and a unit letter, `h` counts `d` hours of
/// 3600 s, `m` minutes of 60 s and `s` seconds; a number with no unit counts
/// seconds.
pub proof fn law_print_time_units(p: Seq<char>, d: Seq<char>, unit: char)
    requires
        forall|j: int| 0 <= j < p.len() ==> p[j] != '=',
        contains_lower(p, needle_time()),
        d.len() > 0,
        all_digits(d),
        0 < decimal_value(d) <= u32::MAX,
    ensures
        print_time_of(p + seq!['='] + d) == Some(decimal_value(d)),
        unit == 'h' || unit == 'H' ==> print_time_of(p + seq!['='] + d.push(unit)) == Some(
            decimal_value(d) * 3600,
        ),
        unit == 'm' || unit == 'M' ==> print_time_of(p + seq!['='] + d.push(unit)) == Some(
            decimal_value(d) * 60,
        ),
        unit == 's' || unit == 'S' ==> print_time_of(p + seq!['='] + d.push(unit)) == Some(
            decimal_value(d),
        ),
{
    lemma_scan_digits(d, 0);
    assert(!is_ws(d[0]) && !is_ws(d[d.len() - 1]));
    lemma_trim_start(d, 0);
    assert(d.skip(0) =~= d);
    lemma_trim_end(d, d.len() as int);
    assert(d.take(d.len() as int) =~= d);
    let line = p + seq!['='] + d;
    assert(line =~= p + (seq!['='] + d));
    lemma_contains_in_longer(p, seq!['='] + d, needle_time());
    assert forall|j: int| 0 <= j < p.len() implies line[j] != '=' by {
        assert(line[j] == p[j]);
    }
    assert(line[p.len() as int] == '=');
    lemma_find_char(line, '=', p.len() as int);
    assert(line.skip(p.len() + 1int) =~= d);
    assert(time_text(line) == Some(d));
    if unit == 'h' || unit == 'H' || unit == 'm' || unit == 'M' || unit == 's' || unit == 'S' {
        let du = d.push(unit);
        let uline = p + seq!['='] + du;
        assert(uline =~= p + (seq!['='] + du));
        lemma_contains_in_longer(p, seq!['='] + du, needle_time());
        assert forall|j: int| 0 <= j < p.len() implies uline[j] != '=' by {
            assert(uline[j] == p[j]);
        }
        assert(uline[p.len() as int] == '=');
        lemma_find_char(uline, '=', p.len() as int);
        assert(uline.skip(p.len() + 1int) =~= du);
        assert(du[0] == d[0] && du[du.len() - 1] == unit);
        lemma_trim_start(du, 0);
        assert(du.skip(0) =~= du);
        lemma_trim_end(du, du.len() as int);
        assert(du.take(du.len() as int) =~= du);
        assert(time_text(uline) == Some(du));
        lemma_scan_push(d, unit, scan_start());
    }
}

/// Lines are read in order: the statistics after one more line are those
/// before it, updated by that line (so a later line overrides an earlier one).
pub proof fn law_lines_read_in_order(ls: Seq<Seq<char>>, line: Seq<char>, st: FilamentView)
    ensures
        fold_lines(ls.push(line), st) == line_step(fold_lines(ls, st), line),
    decreases ls.len(),
{
    let pushed = ls.push(line);
    assert(pushed[0] == (if ls.len() == 0 {
        line
    } else {
        ls[0]
    }));
    if ls.len() == 0 {
        assert(pushed.drop_first() =~= Seq::<Seq<char>>::empty());
        assert(fold_lines(pushed.drop_first(), line_step(st, line)) == line_step(st, line));
    } else {
        assert(pushed.drop_first() =~= ls.drop_first().push(line));
        law_lines_read_in_order(ls.drop_first(), line, line_step(st, ls[0]));
    }
}

proof fn lemma_final_newline(s: Seq<char>, cur: Seq<char>, st: FilamentView)
    requires
        !((cur + s).len() > 0 && (cur + s).last() == '\r'),
    ensures
        fold_lines(lines_from(s + seq!['\n'], cur), st) == fold_lines(lines_from(s, cur), st),
        lines_fit(lines_from(s + seq!['\n'], cur)) == lines_fit(lines_from(s, cur)),
    decreases s.len(),
{
    let sn = s + seq!['\n'];
    assert(sn[0] == (if s.len() == 0 {
        '\n'
    } else {
        s[0]
    }));
    if s.len() == 0 {
        assert(cur + s =~= cur);
        assert(sn.drop_first() =~= Seq::<char>::empty());
        assert(strip_cr(cur) == cur);
        assert(lines_from(sn, cur) == seq![cur] + lines_from(Seq::<char>::empty(), Seq::<char>::empty()));
        assert(lines_from(Seq::<char>::empty(), Seq::<char>::empty()) == Seq::<Seq<char>>::empty());
        lemma_fold_cons(cur, Seq::<Seq<char>>::empty(), st);
        assert(fold_lines(Seq::<Seq<char>>::empty(), line_step(st, cur)) == line_step(st, cur));
        assert(lines_fit(Seq::<Seq<char>>::empty()));
        assert(seq![cur] + Seq::<Seq<char>>::empty() =~= seq![cur]);
        if cur.len() == 0 {
            assert(lines_from(s, cur) == Seq::<Seq<char>>::empty());
            assert(line_step(st, cur) == st);
        } else {
            assert(lines_from(s, cur) == seq![cur]);
        }
    } else {
        assert(sn.drop_first() =~= s.drop_first() + seq!['\n']);
        let rest = s.drop_first();
        if s[0] == '\n' {
            let line = strip_cr(cur);
            assert(Seq::<char>::empty() + rest =~= rest);
            if rest.len() > 0 {
                assert(rest.last() == s.last());
                assert((cur + s).last() == s.last());
            }
            assert(lines_from(sn, cur) == seq![line] + lines_from(rest + seq!['\n'], Seq::<char>::empty()));
            assert(lines_from(s, cur) == seq![line] + lines_from(rest, Seq::<char>::empty()));
            lemma_final_newline(rest, Seq::<char>::empty(), line_step(st, line));
            lemma_fold_cons(line, lines_from(rest + seq!['\n'], Seq::<char>::empty()), st);
            lemma_fold_cons(line, lines_from(rest, Seq::<char>::empty()), st);
        } else {
            assert(cur.push(s[0]) + rest =~= cur + s);
            assert(lines_from(sn, cur) == lines_from(rest + seq!['\n'], cur.push(s[0])));
            lemma_final_newline(rest, cur.push(s[0]), st);
        }
    }
}

/// A final line ending changes nothing: a G-code text reads the same with or
/// without a `\n` after its last line (unless that line ends in a bare `\r`,
/// which the line ending would remove).
pub proof fn law_final_newline_changes_nothing(text: Seq<char>)
    requires
        !(text.len() > 0 && text.last() == '\r'),
    ensures
        gcode_filament(text + seq!['\n']) == gcode_filament(text),
        gcode_times_fit(text + seq!['\n']) == gcode_times_fit(text),
{
    assert(Seq::<char>::empty() + text =~= text);
    lemma_final_newline(text, Seq::<char>::empty(), empty_filament());
}

proof fn lemma_one_line(s: Seq<char>, cur: Seq<char>)
    requires
        forall|j: int| 0 <= j < s.len() ==> s[j] != '\n',
    ensures
        lines_from(s, cur) == (if (cur + s).len() == 0 {
            Seq::<Seq<char>>::empty()
        } else {
            seq![cur + s]
        }),
    decreases s.len(),
{
    if s.len() == 0 {
        assert(cur + s =~= cur);
    } else {
        let rest = s.drop_first();
        assert(s[0] != '\n');
        assert forall|j: int| 0 <= j < rest.len() implies rest[j] != '\n' by {
            assert(rest[j] == s[j + 1]);
        }
        lemma_one_line(rest, cur.push(s[0]));
        assert(cur.push(s[0]) + rest =~= cur + s);
    }
}

/// A text of a single line, with no line ending, is read as that line.
pub proof fn law_single_line(line: Seq<char>)
    requires
        forall|j: int| 0 <= j < line.len() ==> line[j] != '\n',
    ensures
        gcode_filament(line) == line_step(empty_filament(), line),
{
    lemma_one_line(line, Seq::<char>::empty());
    assert(Seq::<char>::empty() + line =~= line);
    if line.len() > 0 {
        lemma_fold_cons(line, Seq::<Seq<char>>::empty(), empty_filament());
        assert(seq![line] + Seq::<Seq<char>>::empty() =~= seq![line]);
    }
}

/// The number of a metadata line is the first word after its first `=`: in a
/// line `p=` followed by blanks, a number `w` written with a decimal point and
/// a rest that is empty or starts with a blank, the number read is `w`, and a
/// filament mass or length comment records it.
pub proof fn law_number_is_first_word(
    p: Seq<char>,
    blanks: Seq<char>,
    w: Seq<char>,
    rest: Seq<char>,
    st: FilamentView,
)
    requires
        forall|j: int| 0 <= j < p.len() ==> p[j] != '=',
        forall|j: int| 0 <= j < blanks.len() ==> is_ws(#[trigger] blanks[j]),
        w.len() > 0,
        forall|j: int| 0 <= j < w.len() ==> !is_ws(#[trigger] w[j]) && w[j] != ',',
        is_float_literal(w),
        rest.len() > 0 ==> is_ws(rest[0]),
    ensures
        number_after_equals(p + seq!['='] + blanks + w + rest) == Some(w),
        is_comment(p) && contains_lower(p + seq!['='] + blanks + w + rest, needle_grams())
            ==> line_step(st, p + seq!['='] + blanks + w + rest).filament_used_g == Some(w),
        is_comment(p) && !contains_lower(p + seq!['='] + blanks + w + rest, needle_grams())
            && contains_lower(p + seq!['='] + blanks + w + rest, needle_millimetres())
            ==> line_step(st, p + seq!['='] + blanks + w + rest).filament_used_mm == Some(w),
{
    let line = p + seq!['='] + blanks + w + rest;
    assert forall|j: int| 0 <= j < p.len() implies line[j] != '=' by {
        assert(line[j] == p[j]);
    }
    assert(line[p.len() as int] == '=');
    lemma_find_char(line, '=', p.len() as int);
    let r = blanks + w + rest;
    assert(line.skip(p.len() + 1int) =~= r);
    assert forall|j: int| 0 <= j < blanks.len() implies is_ws(#[trigger] r[j]) by {
        assert(r[j] == blanks[j]);
    }
    assert(r[blanks.len() as int] == w[0]);
    lemma_trim_start(r, blanks.len() as int);
    let u = w + rest;
    assert(r.skip(blanks.len() as int) =~= u);
    assert forall|j: int| 0 <= j < w.len() implies !is_ws(#[trigger] u[j]) by {
        assert(u[j] == w[j]);
    }
    if rest.len() > 0 {
        assert(u[w.len() as int] == rest[0]);
    }
    lemma_word_len(u, w.len() as int);
    assert(u.take(w.len() as int) =~= w);
    assert(comma_to_dot(w) =~= w);
    if p.len() > 0 {
        assert(line[0] == p[0]);
    }
}

/// The filament type of a `filament_type` comment is the whole trimmed text
/// after its `=`.
pub proof fn law_filament_type_text_whole(p: Seq<char>, t: Seq<char>, st: FilamentView)
    requires
        p.len() > 0,
        p[0] == ';',
        forall|j: int| 0 <= j < p.len() ==> p[j] != '=',
        forall|j: int| 0 <= j < t.len() ==> t[j] != '=',
        contains_lower(p + seq!['='] + t, needle_type()),
        !contains_lower(p + seq!['='] + t, needle_grams()),
        !contains_lower(p + seq!['='] + t, needle_millimetres()),
    ensures
        line_step(st, p + seq!['='] + t).filament_type == Some(trim(t)),
{
    let line = p + seq!['='] + t;
    assert(line[0] == ';');
    assert forall|j: int| 0 <= j < p.len() implies line[j] != '=' by {
        assert(line[j] == p[j]);
    }
    assert(line[p.len() as int] == '=');
    lemma_find_char(line, '=', p.len() as int);
    assert(line.skip(p.len() + 1int) =~= t);
    lemma_find_char(t, '=', t.len() as int);
    assert(second_field(line, '=') == Some(t));
}

/// The human print time of an "estimated printing time" comment is the whole
/// trimmed text after its `=`, words and inner spaces included
/// (`15m 32s` stays `15m 32s`); a text of that line alone reads the same.
pub proof fn law_print_time_text_whole(p: Seq<char>, t: Seq<char>, st: FilamentView)
    requires
        p.len() > 0,
        p[0] == ';',
        forall|j: int| 0 <= j < p.len() ==> p[j] != '=',
        forall|j: int| 0 <= j < t.len() ==> t[j] != '=',
        contains_lower(p + seq!['='] + t, needle_time()),
        !contains_lower(p + seq!['='] + t, needle_grams()),
        !contains_lower(p + seq!['='] + t, needle_millimetres()),
        !contains_lower(p + seq!['='] + t, needle_type()),
    ensures
        line_step(st, p + seq!['='] + t).print_time_human == Some(trim(t)),
        (forall|j: int| 0 <= j < (p + seq!['='] + t).len() ==> (p + seq!['='] + t)[j] != '\n')
            ==> gcode_filament(p + seq!['='] + t).print_time_human == Some(trim(t)),
{
    let line = p + seq!['='] + t;
    assert(line[0] == ';');
    assert forall|j: int| 0 <= j < p.len() implies line[j] != '=' by {
        assert(line[j] == p[j]);
    }
    assert(line[p.len() as int] == '=');
    lemma_find_char(line, '=', p.len() as int);
    assert(line.skip(p.len() + 1int) =~= t);
    lemma_find_char(t, '=', t.len() as int);
    assert(second_field(line, '=') == Some(t));
    if forall|j: int| 0 <= j < line.len() ==> line[j] != '\n' {
        law_single_line(line);
    }
}

// ---------------------------------------------------------------------------
// Public entry points
/// The number after the first `=` of `line`: its first word, with decimal
/// commas turned into points, when `f64::from_str` accepts that text.
pub fn parse_number_after_equals(line: &str) -> (r: Option<String>)
    ensures
        opt_view(r) == number_after_equals(line@),
{
    let v = chars_of(line);
    assert(v@.subrange(0, v@.len() as int) =~= v@);
    number_after_equals_in(&v, 0, v.len())
}

/// The print time in seconds of an "estimated printing time" line, such as
/// `; estimated printing time (normal mode) = 1h 15m 32s`.
pub fn parse_print_time_seconds(line: &str) -> (r: Option<u32>)
    requires
        print_time_fits(line@),
    ensures
        match print_time_of(line@) {
            Some(n) => r == Some(n as u32),
            None => r is None,
        },
{
    let v = chars_of(line);
    assert(v@.subrange(0, v@.len() as int) =~= v@);
    match print_time_in(&v, 0, v.len()) {
        TimeReading::Seconds(s) => s,
        TimeReading::Overflow => None,
    }
}

/// Whether every print-time comment of `gcode` sums within the `u32` range,
/// which `parse_gcode_metadata` requires.
pub fn gcode_print_times_fit(gcode: &str) -> (r: bool)
    ensures
        r == gcode_times_fit(gcode@),
{
    let v = chars_of(gcode);
    read_lines(&v).is_some()
}

/// The metadata that the comment lines of a G-code file describe.
pub fn parse_gcode_metadata(gcode: &str) -> (m: ModelMetadata)
    requires
        gcode_times_fit(gcode@),
    ensures
        m@ == (MetadataView {
            kind: ModelKind::Gcode,
            geometry: empty_geometry(),
            filament: gcode_filament(gcode@),
        }),
{
    let v = chars_of(gcode);
    let filament = match read_lines(&v) {
        Some(f) => f,
        None => FilamentStats::default(),
    };
    ModelMetadata { kind: ModelKind::Gcode, geometry: GeometryStats::default(), filament }
}

} // verus!

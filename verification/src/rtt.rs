//! The round-trip time field of ping output lines.
//!
//! A time field is `time=` (letters in any case), one or more ASCII digits of
//! whole milliseconds, optionally `.` and one or more digits of fraction, and,
//! for the pattern that asks for a unit, any number of spaces followed by `ms`
//! (in any case). The field taken is the leftmost one in the line.

use vstd::prelude::*;
use crate::decimal::{
    all_digits, decimal_value, is_digit, lemma_decimal_value_bound, parse_decimal, pow10,
};
use crate::text::text_bytes;
use crate::PingResult;

verus! {

broadcast use {vstd::seq::group_seq_axioms, vstd::slice::group_slice_axioms};

/// The two shapes of time field that ping output uses.
#[derive(Debug, Clone, Copy, PartialEq, Eq, Structural)]
pub enum TimePattern {
    /// `time=<ms>[.<fraction>]` followed by spaces and the unit `ms`.
    WithUnit,
    /// `time=<ms>[.<fraction>]` with nothing required after it.
    Bare,
}

/// `b` is the ASCII letter whose lower-case form is `lower`, in either case.
pub open spec fn letter_either_case(b: u8, lower: u8) -> bool {
    b == lower || b + 32 == lower
}

/// `b` holds `time=` (letters in any case) at index `i`.
pub open spec fn time_key_at(b: Seq<u8>, i: int) -> bool {
    &&& 0 <= i
    &&& i + 5 <= b.len()
    &&& letter_either_case(b[i], 116)
    &&& letter_either_case(b[i + 1], 105)
    &&& letter_either_case(b[i + 2], 109)
    &&& letter_either_case(b[i + 3], 101)
    &&& b[i + 4] == 61
}

/// The end of the run of digits that starts at `j`.
pub open spec fn digits_end(b: Seq<u8>, j: int) -> int
    decreases b.len() - j,
{
    if 0 <= j < b.len() && is_digit(b[j]) {
        digits_end(b, j + 1)
    } else {
        j
    }
}

/// The end of the run of spaces that starts at `j`.
pub open spec fn spaces_end(b: Seq<u8>, j: int) -> int
    decreases b.len() - j,
{
    if 0 <= j < b.len() && b[j] == 32 {
        spaces_end(b, j + 1)
    } else {
        j
    }
}

/// Where the field ends when the whole milliseconds end at `e`: after the
/// fraction when `.` and a digit follow, else at `e`.
pub open spec fn fraction_end(b: Seq<u8>, e: int) -> int {
    if 0 <= e && e + 1 < b.len() && b[e] == 46 && is_digit(b[e + 1]) {
        digits_end(b, e + 1)
    } else {
        e
    }
}

/// A time field of the given pattern starts at index `i` of `b`.
pub open spec fn field_at(b: Seq<u8>, i: int, pattern: TimePattern) -> bool {
    &&& time_key_at(b, i)
    &&& digits_end(b, i + 5) > i + 5
    &&& (pattern == TimePattern::WithUnit ==> {
        let s = spaces_end(b, fraction_end(b, digits_end(b, i + 5)));
        &&& s + 2 <= b.len()
        &&& letter_either_case(b[s], 109)
        &&& letter_either_case(b[s + 1], 115)
    })
}

/// The leftmost index at or after `j` where a time field starts.
pub open spec fn leftmost_field_from(b: Seq<u8>, j: int, pattern: TimePattern) -> Option<int>
    decreases b.len() - j,
{
    if j < 0 || j >= b.len() {
        None
    } else if field_at(b, j, pattern) {
        Some(j)
    } else {
        leftmost_field_from(b, j + 1, pattern)
    }
}

/// Nanoseconds that the fraction digits `f` add to the whole milliseconds: up
/// to six digits are the fraction of a millisecond (scaled up by ten for each
/// digit short of six); a longer fraction counts as that many nanoseconds as it
/// stands.
pub open spec fn fraction_nanos(f: Seq<u8>) -> nat {
    decimal_value(f) * pow10((6 - if f.len() < 6 { f.len() as int } else { 6 }) as nat)
}

/// The round-trip time, in nanoseconds, that the line `b` reports through the
/// leftmost time field of the pattern, or `None` when it holds no such field
/// or one of its numbers does not fit in a `u64`.
pub open spec fn rtt_nanos(b: Seq<u8>, pattern: TimePattern) -> Option<nat> {
    match leftmost_field_from(b, 0, pattern) {
        None => None,
        Some(i) => {
            let e = digits_end(b, i + 5);
            let ms = decimal_value(b.subrange(i + 5, e));
            let fe = fraction_end(b, e);
            if ms > u64::MAX {
                None
            } else if fe == e {
                Some(ms * 1_000_000)
            } else {
                let f = b.subrange(e + 1, fe);
                if decimal_value(f) > u64::MAX {
                    None
                } else {
                    Some(ms * 1_000_000 + fraction_nanos(f))
                }
            }
        },
    }
}

/// What `extract_regex` gives for a line: a reply carrying the line when the
/// line reports a round-trip time.
pub open spec fn extract_spec(pattern: TimePattern, line: String) -> Option<PingResult> {
    match rtt_nanos(text_bytes(line@), pattern) {
        Some(n) => Some(PingResult::Pong(n as u128, line)),
        None => None,
    }
}

pub proof fn lemma_digits_end(b: Seq<u8>, j: int)
    requires
        0 <= j <= b.len(),
    ensures
        j <= digits_end(b, j) <= b.len(),
        forall|k: int| j <= k < digits_end(b, j) ==> is_digit(#[trigger] b[k]),
        digits_end(b, j) < b.len() ==> !is_digit(b[digits_end(b, j)]),
    decreases b.len() - j,
{
    if j < b.len() && is_digit(b[j]) {
        lemma_digits_end(b, j + 1);
    }
}

proof fn lemma_spaces_end(b: Seq<u8>, j: int)
    requires
        0 <= j <= b.len(),
    ensures
        j <= spaces_end(b, j) <= b.len(),
    decreases b.len() - j,
{
    if j < b.len() && b[j] == 32 {
        lemma_spaces_end(b, j + 1);
    }
}

fn find_digits_end(b: &[u8], j: usize) -> (r: usize)
    requires
        j <= b@.len(),
    ensures
        r as int == digits_end(b@, j as int),
{
    let mut k = j;
    while k < b.len() && 48 <= b[k] && b[k] <= 57
        invariant
            j <= k <= b@.len(),
            digits_end(b@, j as int) == digits_end(b@, k as int),
        decreases b@.len() - k,
    {
        k += 1;
    }
    k
}

fn find_spaces_end(b: &[u8], j: usize) -> (r: usize)
    requires
        j <= b@.len(),
    ensures
        r as int == spaces_end(b@, j as int),
{
    let mut k = j;
    while k < b.len() && b[k] == 32
        invariant
            j <= k <= b@.len(),
            spaces_end(b@, j as int) == spaces_end(b@, k as int),
        decreases b@.len() - k,
    {
        k += 1;
    }
    k
}

fn either_case(b: u8, lower: u8) -> (r: bool)
    requires
        lower >= 32,
    ensures
        r == letter_either_case(b, lower),
{
    b == lower || b == lower - 32
}

fn find_fraction_end(b: &[u8], e: usize) -> (r: usize)
    requires
        e <= b@.len(),
    ensures
        r as int == fraction_end(b@, e as int),
{
    if e < b.len() && b.len() - e > 1 && b[e] == 46 && 48 <= b[e + 1] && b[e + 1] <= 57 {
        find_digits_end(b, e + 1)
    } else {
        e
    }
}

fn time_field_at(b: &[u8], i: usize, pattern: TimePattern) -> (r: bool)
    requires
        i <= b@.len(),
    ensures
        r == field_at(b@, i as int, pattern),
{
    if b.len() - i < 5 {
        return false;
    }
    if !(either_case(b[i], 116) && either_case(b[i + 1], 105) && either_case(b[i + 2], 109)
        && either_case(b[i + 3], 101) && b[i + 4] == 61) {
        return false;
    }
    let e = find_digits_end(b, i + 5);
    proof {
        lemma_digits_end(b@, i + 5);
    }
    if e == i + 5 {
        return false;
    }
    match pattern {
        TimePattern::Bare => true,
        TimePattern::WithUnit => {
            let fe = find_fraction_end(b, e);
            proof {
                if fe != e {
                    lemma_digits_end(b@, e + 1);
                }
            }
            let s = find_spaces_end(b, fe);
            proof {
                lemma_spaces_end(b@, fe as int);
            }
            if b.len() - s < 2 {
                return false;
            }
            either_case(b[s], 109) && either_case(b[s + 1], 115)
        },
    }
}

/// The leftmost index where a time field of the pattern starts.
fn find_field(b: &[u8], pattern: TimePattern) -> (r: Option<usize>)
    ensures
        match r {
            Some(i) => leftmost_field_from(b@, 0, pattern) == Some(i as int),
            None => leftmost_field_from(b@, 0, pattern) is None,
        },
{
    let mut i: usize = 0;
    while i < b.len()
        invariant
            i <= b@.len(),
            leftmost_field_from(b@, 0, pattern) == leftmost_field_from(b@, i as int, pattern),
        decreases b@.len() - i,
    {
        if time_field_at(b, i, pattern) {
            return Some(i);
        }
        i += 1;
    }
    None
}

/// The nanoseconds of the round-trip time that the bytes of a line report.
pub fn rtt_of_bytes(b: &[u8], pattern: TimePattern) -> (r: Option<u128>)
    ensures
        match rtt_nanos(b@, pattern) {
            Some(n) => r == Some(n as u128),
            None => r is None,
        },
{
    let blen = b.len();
    let i = match find_field(b, pattern) {
        Some(i) => i,
        None => {
            return None;
        },
    };
    proof {
        lemma_leftmost_field(b@, 0, pattern);
        lemma_digits_end(b@, i + 5);
    }
    let e = find_digits_end(b, i + 5);
    let ms = match parse_decimal(b, i + 5, e) {
        Some(v) => v,
        None => {
            return None;
        },
    };
    let fe = find_fraction_end(b, e);
    if fe == e {
        return Some(ms as u128 * 1_000_000);
    }
    proof {
        lemma_digits_end(b@, e + 1);
    }
    let frac = match parse_decimal(b, e + 1, fe) {
        Some(v) => v,
        None => {
            return None;
        },
    };
    let len = fe - (e + 1);
    let digits: usize = if len < 6 { len } else { 6 };
    let mut scale: u64 = 1;
    let mut k: usize = digits;
    while k < 6
        invariant
            digits <= k <= 6,
            scale as nat == pow10((k - digits) as nat),
        decreases 6 - k,
    {
        proof {
            assert(pow10((k + 1 - digits) as nat) == 10 * pow10((k - digits) as nat));
            lemma_pow10_small((k - digits) as nat);
        }
        scale = scale * 10;
        k += 1;
    }
    proof {
        let f = b@.subrange(e + 1, fe as int);
        assert(all_digits(f));
        lemma_decimal_value_bound(f);
        if len < 6 {
            reveal_with_fuel(pow10, 7);
            lemma_pow10_split(len as nat, (6 - len) as nat);
            assert(frac as nat * scale as nat <= 1_000_000) by (nonlinear_arith)
                requires
                    (frac as nat) < pow10(len as nat),
                    pow10(6) == pow10(len as nat) * scale as nat,
                    pow10(6) == 1_000_000,
            ;
        } else {
            assert(scale == 1);
            assert((frac as nat) * (scale as nat) == frac as nat) by (nonlinear_arith)
                requires
                    scale == 1,
            ;
        }
    }
    let nanos = frac as u128 * scale as u128;
    Some(ms as u128 * 1_000_000 + nanos)
}

proof fn lemma_pow10_split(a: nat, b: nat)
    ensures
        pow10(a + b) == pow10(a) * pow10(b),
    decreases a,
{
    if a == 0 {
        assert(pow10(0) == 1);
        assert(a + b == b);
    } else {
        lemma_pow10_split((a - 1) as nat, b);
        let x = pow10((a - 1) as nat);
        let y = pow10(b);
        assert(pow10(a + b) == 10 * pow10((a - 1 + b) as nat));
        assert(pow10(a) == 10 * x);
        assert(10 * (x * y) == (10 * x) * y) by (nonlinear_arith);
    }
}

proof fn lemma_pow10_small(m: nat)
    requires
        m <= 5,
    ensures
        pow10(m) <= 100_000,
{
    reveal_with_fuel(pow10, 6);
    if m == 0 {
    } else if m == 1 {
    } else if m == 2 {
    } else if m == 3 {
    } else if m == 4 {
    } else {
    }
}

proof fn lemma_leftmost_field(b: Seq<u8>, j: int, pattern: TimePattern)
    requires
        0 <= j,
    ensures
        leftmost_field_from(b, j, pattern) matches Some(i) ==> j <= i < b.len() && field_at(
            b,
            i,
            pattern,
        ),
    decreases b.len() - j,
{
    if j < b.len() && !field_at(b, j, pattern) {
        lemma_leftmost_field(b, j + 1, pattern);
    }
}

/// A reply read from a line always carries that line unchanged.
pub proof fn law_reply_keeps_line(pattern: TimePattern, line: String)
    ensures
        extract_spec(pattern, line) matches Some(p) ==> p == PingResult::Pong(
            rtt_nanos(text_bytes(line@), pattern)->0 as u128,
            line,
        ),
{
}

/// A fraction of at most six digits stays below a millisecond, so the whole
/// milliseconds of the reported time are exactly those written before the
/// point.
pub proof fn law_fraction_below_millisecond(f: Seq<u8>, ms: nat)
    requires
        all_digits(f),
        f.len() <= 6,
    ensures
        fraction_nanos(f) < 1_000_000,
        (ms * 1_000_000 + fraction_nanos(f)) / 1_000_000 == ms,
{
    lemma_decimal_value_bound(f);
    lemma_pow10_split(f.len(), (6 - f.len()) as nat);
    reveal_with_fuel(pow10, 7);
    let v = decimal_value(f);
    let s = pow10((6 - f.len()) as nat);
    assert((6 - if f.len() < 6 { f.len() as int } else { 6 }) as nat == (6 - f.len()) as nat);
    assert(v * s < 1_000_000) by (nonlinear_arith)
        requires
            v < pow10(f.len()),
            pow10(f.len()) * s == 1_000_000,
            s >= 1,
    ;
    assert((ms * 1_000_000 + v * s) / 1_000_000 == ms) by (nonlinear_arith)
        requires
            v * s < 1_000_000,
    ;
}

/// A time field followed by its unit is also a time field without one: the
/// unit pattern only narrows which fields count.
pub proof fn law_unit_field_is_bare_field(b: Seq<u8>, i: int)
    ensures
        field_at(b, i, TimePattern::WithUnit) ==> field_at(b, i, TimePattern::Bare),
{
}

/// A time field at `p`, with none between `j` and `p`, is the leftmost one
/// from `j` on.
pub proof fn lemma_leftmost_field_is(b: Seq<u8>, j: int, p: int, pattern: TimePattern)
    requires
        0 <= j <= p,
        field_at(b, p, pattern),
        forall|k: int| j <= k < p ==> !field_at(b, k, pattern),
    ensures
        leftmost_field_from(b, j, pattern) == Some(p),
    decreases p - j,
{
    if j < p {
        lemma_leftmost_field_is(b, j + 1, p, pattern);
    }
}

/// A run of digits from `j` to `e`, not followed by a digit, ends at `e`.
pub proof fn lemma_digits_end_at(b: Seq<u8>, j: int, e: int)
    requires
        0 <= j <= e <= b.len(),
        forall|k: int| j <= k < e ==> is_digit(#[trigger] b[k]),
        e < b.len() ==> !is_digit(b[e]),
    ensures
        digits_end(b, j) == e,
    decreases e - j,
{
    if j < e {
        lemma_digits_end_at(b, j + 1, e);
    }
}

/// Every reply read from a line has a round-trip time that fits in a
/// `std::time::Duration`.
pub proof fn law_replies_fit_duration(pattern: TimePattern, line: String)
    ensures
        extract_spec(pattern, line) matches Some(p) ==> p.fits_duration(),
{
    let b = text_bytes(line@);
    lemma_leftmost_field(b, 0, pattern);
    if let Some(i) = leftmost_field_from(b, 0, pattern) {
        lemma_digits_end(b, i + 5);
        let e = digits_end(b, i + 5);
        let fe = fraction_end(b, e);
        if fe != e {
            lemma_digits_end(b, e + 1);
            let f = b.subrange(e + 1, fe);
            assert(all_digits(f));
            if f.len() <= 6 {
                law_fraction_below_millisecond(f, 0);
            } else {
                assert(pow10(0) == 1);
                assert((6 - if f.len() < 6 {
                    f.len() as int
                } else {
                    6
                }) as nat == 0);
                assert(decimal_value(f) * pow10(0) == decimal_value(f)) by (nonlinear_arith)
                    requires
                        pow10(0) == 1,
                ;
                assert(fraction_nanos(f) == decimal_value(f));
            }
        }
    }
}

// ---------------------------------------------------------------------------
// Laws stating, byte by byte, what a time field reads as.

/// `b` holds `time=` at `i`, its letters in either case.
pub open spec fn key_bytes_at(b: Seq<u8>, i: int) -> bool {
    &&& 0 <= i
    &&& i + 5 <= b.len()
    &&& (b[i] == 116 || b[i] == 84)
    &&& (b[i + 1] == 105 || b[i + 1] == 73)
    &&& (b[i + 2] == 109 || b[i + 2] == 77)
    &&& (b[i + 3] == 101 || b[i + 3] == 69)
    &&& b[i + 4] == 61
}

/// `b[j..e]` is a run of ASCII digits that no digit follows.
pub open spec fn maximal_digits(b: Seq<u8>, j: int, e: int) -> bool {
    &&& 0 <= j <= e <= b.len()
    &&& forall|k: int| j <= k < e ==> 48 <= #[trigger] b[k] <= 57
    &&& (e < b.len() ==> !(48 <= b[e] <= 57))
}

/// From `j` to `s`, `b` holds spaces, and then `ms`, its letters in either case.
pub open spec fn unit_at(b: Seq<u8>, j: int, s: int) -> bool {
    j <= s && s + 2 <= b.len() && (forall|k: int| j <= k < s ==> #[trigger] b[k] == 32) && (b[s]
        == 109 || b[s] == 77) && (b[s + 1] == 115 || b[s + 1] == 83)
}

/// From `j` on, `b` holds some spaces and then `ms`, its letters in either case.
pub open spec fn unit_after(b: Seq<u8>, j: int) -> bool {
    exists|s: int| #[trigger] unit_at(b, j, s)
}

/// `n` zero digits.
pub open spec fn zero_digits(n: nat) -> Seq<u8> {
    Seq::new(n, |k: int| 48u8)
}

proof fn lemma_maximal_digits(b: Seq<u8>, j: int, e: int)
    requires
        maximal_digits(b, j, e),
    ensures
        digits_end(b, j) == e,
        all_digits(b.subrange(j, e)),
{
    lemma_digits_end_at(b, j, e);
    assert forall|k: int| 0 <= k < b.subrange(j, e).len() implies is_digit(
        #[trigger] b.subrange(j, e)[k],
    ) by {
        assert(b.subrange(j, e)[k] == b[j + k]);
    }
}

proof fn lemma_spaces_end_at(b: Seq<u8>, j: int, s: int)
    requires
        0 <= j <= s < b.len(),
        forall|k: int| j <= k < s ==> #[trigger] b[k] == 32,
        b[s] != 32,
    ensures
        spaces_end(b, j) == s,
    decreases s - j,
{
    if j < s {
        lemma_spaces_end_at(b, j + 1, s);
    }
}

proof fn lemma_unit_after(b: Seq<u8>, j: int)
    requires
        0 <= j <= b.len(),
        unit_after(b, j),
    ensures
        ({
            let s = spaces_end(b, j);
            &&& s + 2 <= b.len()
            &&& letter_either_case(b[s], 109)
            &&& letter_either_case(b[s + 1], 115)
        }),
{
    let s = choose|s: int| #[trigger] unit_at(b, j, s);
    lemma_spaces_end_at(b, j, s);
}

proof fn lemma_no_field(b: Seq<u8>, j: int, pattern: TimePattern)
    requires
        0 <= j,
        forall|k: int| 0 <= k ==> !field_at(b, k, pattern),
    ensures
        leftmost_field_from(b, j, pattern) is None,
    decreases b.len() - j,
{
    if j < b.len() {
        lemma_no_field(b, j + 1, pattern);
    }
}

proof fn lemma_zero_padding(f: Seq<u8>, n: nat)
    ensures
        decimal_value(f + zero_digits(n)) == decimal_value(f) * pow10(n),
    decreases n,
{
    if n == 0 {
        assert(f + zero_digits(0) =~= f);
        assert(decimal_value(f) * 1 == decimal_value(f)) by (nonlinear_arith);
    } else {
        lemma_zero_padding(f, (n - 1) as nat);
        let g = f + zero_digits(n);
        assert(g.drop_last() =~= f + zero_digits((n - 1) as nat));
        assert(g.last() == 48);
        let v = decimal_value(f);
        let q = pow10((n - 1) as nat);
        assert((v * q) * 10 == v * (10 * q)) by (nonlinear_arith);
    }
}

/// A line without any time field of the pattern reports no round-trip time.
pub proof fn law_no_field_no_reply(pattern: TimePattern, line: String)
    requires
        forall|k: int| 0 <= k ==> !field_at(text_bytes(line@), k, pattern),
    ensures
        extract_spec(pattern, line) is None,
{
    lemma_no_field(text_bytes(line@), 0, pattern);
}

/// A time field without the unit is `time=` (letters in either case) and a
/// digit: the bare pattern asks for nothing more.
pub proof fn law_bare_field_bytes(b: Seq<u8>, i: int)
    ensures
        field_at(b, i, TimePattern::Bare) <==> (key_bytes_at(b, i) && i + 5 < b.len() && 48 <= b[i
            + 5] <= 57),
{
    if key_bytes_at(b, i) && i + 5 < b.len() && 48 <= b[i + 5] <= 57 {
        assert(digits_end(b, i + 5) == digits_end(b, i + 6));
        lemma_digits_end(b, i + 6);
    }
    if field_at(b, i, TimePattern::Bare) {
        lemma_digits_end(b, i + 5);
    }
}

/// The leftmost time field `time=<d>` without a fraction, followed (for the
/// unit pattern) by spaces and `ms`, reads as `d` whole milliseconds:
/// `d × 1 000 000` nanoseconds, or nothing when `d` exceeds `u64::MAX`.
pub proof fn law_whole_milliseconds(pattern: TimePattern, line: String, i: int, e: int)
    requires
        key_bytes_at(text_bytes(line@), i),
        maximal_digits(text_bytes(line@), i + 5, e),
        e > i + 5,
        !(e + 1 < text_bytes(line@).len() && text_bytes(line@)[e] == 46 && 48 <= text_bytes(
            line@,
        )[e + 1] <= 57),
        pattern == TimePattern::WithUnit ==> unit_after(text_bytes(line@), e),
        forall|k: int| 0 <= k < i ==> !field_at(text_bytes(line@), k, pattern),
    ensures
        extract_spec(pattern, line) == if decimal_value(text_bytes(line@).subrange(i + 5, e))
            <= u64::MAX {
            Some(
                PingResult::Pong(
                    (decimal_value(text_bytes(line@).subrange(i + 5, e)) * 1_000_000) as u128,
                    line,
                ),
            )
        } else {
            None
        },
{
    let b = text_bytes(line@);
    lemma_maximal_digits(b, i + 5, e);
    assert(fraction_end(b, e) == e);
    if pattern == TimePattern::WithUnit {
        lemma_unit_after(b, e);
    }
    assert(field_at(b, i, pattern));
    lemma_leftmost_field_is(b, 0, i, pattern);
}

/// The leftmost time field `time=<d>.<f>`, followed (for the unit pattern) by
/// spaces and `ms`, reads as `d` milliseconds plus the fraction: `f` padded with
/// zeros to six digits, as nanoseconds, when `f` has at most six digits, and `f`
/// itself as nanoseconds when it is longer; nothing when `d` or `f` exceeds
/// `u64::MAX`.
pub proof fn law_fractional_milliseconds(
    pattern: TimePattern,
    line: String,
    i: int,
    e: int,
    fe: int,
)
    requires
        key_bytes_at(text_bytes(line@), i),
        maximal_digits(text_bytes(line@), i + 5, e),
        e > i + 5,
        e < text_bytes(line@).len() && text_bytes(line@)[e] == 46,
        maximal_digits(text_bytes(line@), e + 1, fe),
        fe > e + 1,
        pattern == TimePattern::WithUnit ==> unit_after(text_bytes(line@), fe),
        forall|k: int| 0 <= k < i ==> !field_at(text_bytes(line@), k, pattern),
    ensures
        ({
            let b = text_bytes(line@);
            let d = decimal_value(b.subrange(i + 5, e));
            let f = b.subrange(e + 1, fe);
            extract_spec(pattern, line) == if d <= u64::MAX && decimal_value(f) <= u64::MAX {
                Some(
                    PingResult::Pong(
                        (d * 1_000_000 + if f.len() <= 6 {
                            decimal_value(f + zero_digits((6 - f.len()) as nat))
                        } else {
                            decimal_value(f)
                        }) as u128,
                        line,
                    ),
                )
            } else {
                None
            }
        }),
{
    let b = text_bytes(line@);
    lemma_maximal_digits(b, i + 5, e);
    lemma_maximal_digits(b, e + 1, fe);
    assert(fraction_end(b, e) == fe);
    if pattern == TimePattern::WithUnit {
        lemma_unit_after(b, fe);
    }
    assert(field_at(b, i, pattern));
    lemma_leftmost_field_is(b, 0, i, pattern);
    let f = b.subrange(e + 1, fe);
    if f.len() <= 6 {
        lemma_zero_padding(f, (6 - f.len()) as nat);
    } else {
        assert(pow10(0) == 1);
        assert(decimal_value(f) * pow10(0) == decimal_value(f)) by (nonlinear_arith)
            requires
                pow10(0) == 1,
        ;
    }
}

} // verus!

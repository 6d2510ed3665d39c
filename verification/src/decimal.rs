//! Decimal numbers: reading runs of ASCII digits and writing integers in decimal.

use vstd::prelude::*;
use vstd::utf8::{encode_utf8, is_ascii_chars, is_ascii_chars_encode_utf8};

verus! {

broadcast use {vstd::seq::group_seq_axioms, vstd::slice::group_slice_axioms};

/// An ASCII digit `0`..`9`.
pub open spec fn is_digit(b: u8) -> bool {
    48 <= b <= 57
}

/// Every byte of `d` is an ASCII digit.
pub open spec fn all_digits(d: Seq<u8>) -> bool {
    forall|k: int| 0 <= k < d.len() ==> is_digit(#[trigger] d[k])
}

/// The number that a run of ASCII digits writes in decimal.
pub open spec fn decimal_value(d: Seq<u8>) -> nat
    decreases d.len(),
{
    if d.len() == 0 {
        0
    } else {
        decimal_value(d.drop_last()) * 10 + (d.last() - 48) as nat
    }
}

/// Ten to the power `k`.
pub open spec fn pow10(k: nat) -> nat
    decreases k,
{
    if k == 0 {
        1
    } else {
        10 * pow10((k - 1) as nat)
    }
}

/// A run of digits is worth less than ten to the power of its length.
pub proof fn lemma_decimal_value_bound(d: Seq<u8>)
    requires
        all_digits(d),
    ensures
        decimal_value(d) < pow10(d.len()),
    decreases d.len(),
{
    if d.len() > 0 {
        let init = d.drop_last();
        assert(all_digits(init)) by {
            assert forall|k: int| 0 <= k < init.len() implies is_digit(#[trigger] init[k]) by {
                assert(init[k] == d[k]);
            }
        }
        lemma_decimal_value_bound(init);
        assert(is_digit(d[d.len() - 1]));
        assert(decimal_value(d) < pow10(d.len())) by (nonlinear_arith)
            requires
                decimal_value(d) == decimal_value(init) * 10 + (d.last() - 48) as nat,
                decimal_value(init) < pow10(init.len()),
                pow10(d.len()) == 10 * pow10(init.len()),
                (d.last() - 48) as nat <= 9,
        ;
    }
}

/// A leading part of a run of digits is worth no more than the whole run.
pub proof fn lemma_decimal_prefix_le(d: Seq<u8>, k: int)
    requires
        all_digits(d),
        0 <= k <= d.len(),
    ensures
        decimal_value(d.subrange(0, k)) <= decimal_value(d),
    decreases d.len(),
{
    if k < d.len() {
        let init = d.drop_last();
        assert(all_digits(init)) by {
            assert forall|j: int| 0 <= j < init.len() implies is_digit(#[trigger] init[j]) by {
                assert(init[j] == d[j]);
            }
        }
        lemma_decimal_prefix_le(init, k);
        assert(init.subrange(0, k) =~= d.subrange(0, k));
    } else {
        assert(d.subrange(0, k) =~= d);
    }
}

/// Reads `b[start..end]`, a non-empty run of ASCII digits, as a `u64`, as
/// `str::parse::<u64>` does: `None` when the number does not fit.
pub fn parse_decimal(b: &[u8], start: usize, end: usize) -> (r: Option<u64>)
    requires
        start < end <= b@.len(),
        all_digits(b@.subrange(start as int, end as int)),
    ensures
        r == (if decimal_value(b@.subrange(start as int, end as int)) <= u64::MAX {
            Some(decimal_value(b@.subrange(start as int, end as int)) as u64)
        } else {
            None::<u64>
        }),
{
    let ghost d = b@.subrange(start as int, end as int);
    let mut acc: u64 = 0;
    let mut k = start;
    while k < end
        invariant
            start <= k <= end <= b@.len(),
            d == b@.subrange(start as int, end as int),
            all_digits(d),
            acc as nat == decimal_value(b@.subrange(start as int, k as int)),
        decreases end - k,
    {
        let ghost prefix = b@.subrange(start as int, (k + 1) as int);
        proof {
            assert(prefix.drop_last() =~= b@.subrange(start as int, k as int));
            assert(prefix.last() == d[k - start]);
            assert(prefix =~= d.subrange(0, (k + 1 - start) as int));
            lemma_decimal_prefix_le(d, (k + 1 - start) as int);
        }
        let digit = (b[k] - 48) as u64;
        match acc.checked_mul(10) {
            Some(m) => match m.checked_add(digit) {
                Some(v) => {
                    acc = v;
                },
                None => {
                    return None;
                },
            },
            None => {
                return None;
            },
        }
        k += 1;
    }
    proof {
        assert(d =~= b@.subrange(start as int, k as int));
    }
    Some(acc)
}

/// The ASCII character of a digit value below ten.
pub open spec fn digit_char(v: nat) -> char {
    (48 + v) as char
}

/// The decimal writing of `n`, without leading zeros.
pub open spec fn decimal_chars(n: nat) -> Seq<char>
    decreases n,
{
    if n < 10 {
        seq![digit_char(n)]
    } else {
        decimal_chars(n / 10).push(digit_char(n % 10))
    }
}

/// The characters of `v` from the last to the first.
pub open spec fn reversed(v: Seq<char>) -> Seq<char>
    decreases v.len(),
{
    if v.len() == 0 {
        seq![]
    } else {
        seq![v.last()] + reversed(v.drop_last())
    }
}

/// Writes `n` in decimal, as `format!("{}", n)` does.
pub fn decimal_text(n: u64) -> (s: String)
    ensures
        s@ == decimal_chars(n as nat),
{
    let mut m = n;
    let mut rev: Vec<char> = Vec::new();
    while m >= 10
        invariant
            decimal_chars(n as nat) == decimal_chars(m as nat) + reversed(rev@),
        decreases m,
    {
        let d = m % 10;
        let c = ((48 + d) as u8) as char;
        proof {
            assert(c == digit_char(d as nat));
        }
        let ghost old_rev = rev@;
        rev.push(c);
        proof {
            assert(rev@.drop_last() =~= old_rev);
            assert(reversed(rev@) =~= seq![c] + reversed(old_rev));
            assert(decimal_chars(m as nat) =~= decimal_chars((m / 10) as nat).push(c));
        }
        m = m / 10;
    }
    let mut s = String::new();
    let first = ((48 + m) as u8) as char;
    s.push(first);
    proof {
        assert(first == digit_char(m as nat));
        assert(s@ =~= decimal_chars(m as nat));
    }
    while rev.len() > 0
        invariant
            decimal_chars(n as nat) == s@ + reversed(rev@),
        decreases rev@.len(),
    {
        let ghost old_rev = rev@;
        match rev.pop() {
            Some(c) => {
                s.push(c);
                proof {
                    assert(old_rev.drop_last() =~= rev@);
                    assert(reversed(old_rev) =~= seq![c] + reversed(rev@));
                }
            },
            None => {},
        }
    }
    proof {
        assert(reversed(rev@) =~= Seq::<char>::empty());
    }
    s
}

/// The bytes of a character sequence made of ASCII characters.
pub open spec fn ascii_bytes(c: Seq<char>) -> Seq<u8> {
    Seq::new(c.len(), |i: int| c[i] as u8)
}

/// The decimal writing of `n` is ASCII, non-empty, all digits, and worth `n`.
pub proof fn lemma_decimal_chars_bytes(n: nat)
    ensures
        decimal_chars(n).len() >= 1,
        is_ascii_chars(decimal_chars(n)),
        all_digits(ascii_bytes(decimal_chars(n))),
        decimal_value(ascii_bytes(decimal_chars(n))) == n,
    decreases n,
{
    let c = decimal_chars(n);
    let b = ascii_bytes(c);
    if n < 10 {
        assert(c[0] as u8 == 48 + n);
        assert(b.drop_last() =~= Seq::<u8>::empty());
        assert(decimal_value(b) == decimal_value(b.drop_last()) * 10 + (b.last() - 48) as nat);
        assert(decimal_value(b) == n);
    } else {
        lemma_decimal_chars_bytes(n / 10);
        let p = decimal_chars(n / 10);
        assert(c =~= p.push(digit_char(n % 10)));
        assert(c[c.len() - 1] as u8 == 48 + n % 10);
        assert(b.drop_last() =~= ascii_bytes(p));
        assert(b.last() == 48 + n % 10);
        assert(decimal_value(b) == decimal_value(b.drop_last()) * 10 + (b.last() - 48) as nat);
        assert(decimal_value(b) == (n / 10) * 10 + n % 10);
        assert(all_digits(b)) by {
            assert forall|k: int| 0 <= k < b.len() implies is_digit(#[trigger] b[k]) by {
                if k < b.len() - 1 {
                    assert(b[k] == ascii_bytes(p)[k]);
                }
            }
        }
    }
}

/// Writing a number in decimal and reading the digits back gives the number:
/// the text is all ASCII digits and its bytes are worth `n`.
pub proof fn law_decimal_round_trip(n: nat)
    ensures
        all_digits(encode_utf8(decimal_chars(n))),
        decimal_value(encode_utf8(decimal_chars(n))) == n,
{
    lemma_decimal_chars_bytes(n);
    let c = decimal_chars(n);
    is_ascii_chars_encode_utf8(c);
    assert(encode_utf8(c) =~= ascii_bytes(c));
}

} // verus!

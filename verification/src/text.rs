//! Byte-level text helpers: prefix and substring tests, line splitting and
//! string building, all stated over the UTF-8 bytes of the text.

use vstd::prelude::*;
use vstd::utf8::*;

verus! {

broadcast use {vstd::seq::group_seq_axioms, vstd::slice::group_slice_axioms};

/// `std`'s `String::push` appends one character.
pub assume_specification[ String::push ](s: &mut String, ch: char)
    ensures
        final(s)@ == old(s)@.push(ch),
;

/// `std`'s `String::push_str` appends the characters of a string slice.
pub assume_specification[ String::push_str ](s: &mut String, string: &str)
    ensures
        final(s)@ == old(s)@ + string@,
;

/// Decodes bytes as UTF-8 text by calling `String::from_utf8`.
/// The standard library documents that it succeeds exactly when the bytes
/// are well-formed UTF-8, and that the text is then the one they encode.
#[verifier::external_body]
pub fn decode_text(bytes: Vec<u8>) -> (r: Option<String>)
    ensures
        r is Some <==> valid_utf8(bytes@),
        r matches Some(s) ==> s@ == decode_utf8(bytes@),
{
    String::from_utf8(bytes).ok()
}

/// Tells whether bytes are well-formed UTF-8 by calling `std::str::from_utf8`,
/// which the standard library documents to succeed exactly on such bytes.
#[verifier::external_body]
pub fn is_utf8(bytes: &[u8]) -> (r: bool)
    ensures
        r == valid_utf8(bytes@),
{
    std::str::from_utf8(bytes).is_ok()
}

/// The bytes of a text, as `str::as_bytes` gives them.
pub open spec fn text_bytes(s: Seq<char>) -> Seq<u8> {
    encode_utf8(s)
}

/// `s` begins with `p`.
pub open spec fn has_prefix(s: Seq<u8>, p: Seq<u8>) -> bool {
    p.len() <= s.len() && s.subrange(0, p.len() as int) == p
}

/// `p` occurs in `s` starting at index `i`.
pub open spec fn occurs_at(s: Seq<u8>, p: Seq<u8>, i: int) -> bool {
    0 <= i && i + p.len() <= s.len() && s.subrange(i, i + p.len()) == p
}

/// `p` occurs somewhere in `s`.
pub open spec fn has_infix(s: Seq<u8>, p: Seq<u8>) -> bool {
    exists|i: int| occurs_at(s, p, i)
}

/// Tells whether `p` occurs in `s` starting at index `i`.
fn bytes_occur_at(s: &[u8], p: &[u8], i: usize) -> (r: bool)
    requires
        i <= s@.len(),
    ensures
        r == occurs_at(s@, p@, i as int),
{
    if p.len() > s.len() - i {
        return false;
    }
    let mut k: usize = 0;
    while k < p.len()
        invariant
            i + p@.len() <= s@.len(),
            s@.len() <= usize::MAX,
            k <= p@.len(),
            forall|j: int| 0 <= j < k ==> s@[i + j] == p@[j],
        decreases p@.len() - k,
    {
        assert(i + k < s@.len());
        if s[i + k] != p[k] {
            assert(s@.subrange(i as int, i + p@.len())[k as int] != p@[k as int]);
            return false;
        }
        k += 1;
    }
    assert(s@.subrange(i as int, i + p@.len()) =~= p@);
    true
}

/// Tells whether `s` begins with `p`.
pub fn bytes_start_with(s: &[u8], p: &[u8]) -> (r: bool)
    ensures
        r == has_prefix(s@, p@),
{
    bytes_occur_at(s, p, 0)
}

/// Tells whether `p` occurs somewhere in `s`.
pub fn bytes_contain(s: &[u8], p: &[u8]) -> (r: bool)
    ensures
        r == has_infix(s@, p@),
{
    let mut i: usize = 0;
    loop
        invariant
            i <= s@.len(),
            forall|j: int| 0 <= j < i ==> !occurs_at(s@, p@, j),
        ensures
            forall|j: int| 0 <= j <= s@.len() ==> !occurs_at(s@, p@, j),
        decreases s@.len() - i,
    {
        if bytes_occur_at(s, p, i) {
            return true;
        }
        if i == s.len() {
            break;
        }
        i += 1;
    }
    assert forall|j: int| !occurs_at(s@, p@, j) by {
        if 0 <= j && j + p@.len() <= s@.len() {
            assert(j <= s@.len());
        }
    }
    false
}

/// Tells whether the text `s` begins with the text `p`.
pub fn text_starts_with(s: &String, p: &str) -> (r: bool)
    ensures
        r == has_prefix(text_bytes(s@), text_bytes(p@)),
{
    bytes_start_with(s.as_str().as_bytes(), p.as_bytes())
}

/// Tells whether the text `p` occurs in the text `s`.
pub fn text_contains(s: &String, p: &str) -> (r: bool)
    ensures
        r == has_infix(text_bytes(s@), text_bytes(p@)),
{
    bytes_contain(s.as_str().as_bytes(), p.as_bytes())
}

/// A string holding the characters of `s`.
pub fn owned(s: &str) -> (r: String)
    ensures
        r@ == s@,
{
    s.to_owned()
}

/// The concatenation of two texts.
pub fn concat(a: &str, b: &str) -> (r: String)
    ensures
        r@ == a@ + b@,
{
    let mut s = a.to_owned();
    s.push_str(b);
    s
}

// ---------------------------------------------------------------------------
// Lines, as `str::lines` splits them.

pub const NEWLINE: u8 = 10;

pub const CARRIAGE_RETURN: u8 = 13;

/// The index of the first newline at or after `j`, or the length when there is none.
pub open spec fn newline_from(b: Seq<u8>, j: int) -> int
    decreases b.len() - j,
{
    if j >= b.len() {
        b.len() as int
    } else if b[j] == NEWLINE {
        j
    } else {
        newline_from(b, j + 1)
    }
}

pub proof fn lemma_newline_from_bounds(b: Seq<u8>, j: int)
    requires
        0 <= j,
    ensures
        j <= b.len() ==> j <= newline_from(b, j) <= b.len(),
        j > b.len() ==> newline_from(b, j) == b.len(),
        newline_from(b, j) < b.len() ==> b[newline_from(b, j)] == NEWLINE,
        forall|k: int| j <= k < newline_from(b, j) ==> b[k] != NEWLINE,
    decreases b.len() - j,
{
    if j < b.len() && b[j] != NEWLINE {
        lemma_newline_from_bounds(b, j + 1);
    }
}

/// The text of the line that starts at `start` and ends at `nl`: a line ended by
/// a newline loses one carriage return right before it, a last line without a
/// newline keeps everything.
pub open spec fn line_body(b: Seq<u8>, start: int, nl: int) -> Seq<u8> {
    let raw = b.subrange(start, nl);
    if nl < b.len() && raw.len() > 0 && raw.last() == CARRIAGE_RETURN {
        raw.drop_last()
    } else {
        raw
    }
}

/// The lines of `b` from index `start` on.
pub open spec fn lines_from(b: Seq<u8>, start: int) -> Seq<Seq<u8>>
    decreases b.len() - start,
    when 0 <= start
{
    if start >= b.len() {
        seq![]
    } else {
        let nl = newline_from(b, start);
        proof {
            lemma_newline_from_bounds(b, start);
        }
        if nl < b.len() {
            seq![line_body(b, start, nl)] + lines_from(b, nl + 1)
        } else {
            seq![line_body(b, start, nl)]
        }
    }
}

/// The lines of a text: pieces between newlines, a final newline opening no
/// further line.
pub open spec fn text_lines(b: Seq<u8>) -> Seq<Seq<u8>> {
    lines_from(b, 0)
}

/// The first `n` lines of a text (all of them when it has fewer).
pub open spec fn first_lines(b: Seq<u8>, n: nat) -> Seq<Seq<u8>> {
    if text_lines(b).len() <= n {
        text_lines(b)
    } else {
        text_lines(b).take(n as int)
    }
}

proof fn lemma_valid_split_ascii(x: Seq<u8>, k: int)
    requires
        valid_utf8(x),
        0 <= k < x.len(),
        x[k] <= 0x7f,
    ensures
        valid_utf8(x.subrange(0, k)),
        valid_utf8(x.subrange(k, x.len() as int)),
        valid_utf8(x.subrange(k + 1, x.len() as int)),
{
    is_char_boundary_iff_not_is_continuation_byte(x, k);
    valid_utf8_split(x, k);
    let rest = x.subrange(k, x.len() as int);
    assert(rest[0] == x[k]);
    assert(pop_first_scalar(rest) =~= x.subrange(k + 1, x.len() as int));
}

proof fn lemma_valid_subrange_end(x: Seq<u8>, k: int)
    requires
        valid_utf8(x),
        0 <= k <= x.len(),
        k < x.len() ==> x[k] <= 0x7f,
    ensures
        valid_utf8(x.subrange(0, k)),
{
    if k == x.len() {
        assert(x.subrange(0, k) =~= x);
    } else {
        lemma_valid_split_ascii(x, k);
    }
}

/// The index of the first newline at or after `j`, or the length.
fn find_newline(b: &[u8], j: usize) -> (r: usize)
    requires
        j <= b@.len(),
    ensures
        r == newline_from(b@, j as int),
{
    let mut k = j;
    while k < b.len() && b[k] != NEWLINE
        invariant
            j <= k <= b@.len(),
            newline_from(b@, j as int) == newline_from(b@, k as int),
        decreases b@.len() - k,
    {
        k += 1;
    }
    k
}

/// A copy of `b[start..end]`.
fn copy_range(b: &[u8], start: usize, end: usize) -> (r: Vec<u8>)
    requires
        start <= end <= b@.len(),
    ensures
        r@ == b@.subrange(start as int, end as int),
{
    let mut v: Vec<u8> = Vec::new();
    let mut k = start;
    while k < end
        invariant
            start <= k <= end <= b@.len(),
            v@ == b@.subrange(start as int, k as int),
        decreases end - k,
    {
        v.push(b[k]);
        k += 1;
        assert(v@ =~= b@.subrange(start as int, k as int));
    }
    v
}

/// The first `n` lines of well-formed UTF-8 text, each decoded to a string.
pub fn take_lines(b: &[u8], n: usize) -> (r: Vec<String>)
    requires
        valid_utf8(b@),
    ensures
        r@.len() == first_lines(b@, n as nat).len(),
        forall|k: int| 0 <= k < r@.len() ==> #[trigger] r@[k]@ == decode_utf8(first_lines(b@, n as nat)[k]),
{
    let mut out: Vec<String> = Vec::new();
    let mut start: usize = 0;
    let ghost all = text_lines(b@);
    proof {
        assert(b@.subrange(0, b@.len() as int) =~= b@);
    }
    while start < b.len() && out.len() < n
        invariant
            start <= b@.len(),
            all == text_lines(b@),
            valid_utf8(b@.subrange(start as int, b@.len() as int)),
            out@.len() <= n,
            out@.len() <= all.len(),
            all =~= all.take(out@.len() as int) + lines_from(b@, start as int),
            forall|k: int| 0 <= k < out@.len() ==> #[trigger] out@[k]@ == decode_utf8(all[k]),
        decreases b@.len() - start,
    {
        let nl = find_newline(b, start);
        proof {
            lemma_newline_from_bounds(b@, start as int);
        }
        let ghost rest = b@.subrange(start as int, b@.len() as int);
        let ghost body = line_body(b@, start as int, nl as int);
        let mut end = nl;
        if nl < b.len() && nl > start && b[nl - 1] == CARRIAGE_RETURN {
            end = nl - 1;
        }
        proof {
            assert(body =~= b@.subrange(start as int, end as int));
            lemma_valid_subrange_end(rest, (end - start) as int);
            assert(rest.subrange(0, (end - start) as int) =~= body);
            if nl < b@.len() {
                lemma_valid_split_ascii(rest, (nl - start) as int);
                assert(rest.subrange((nl - start) as int + 1, rest.len() as int) =~= b@.subrange(
                    nl + 1,
                    b@.len() as int,
                ));
            }
        }
        let piece = copy_range(b, start, end);
        let line = decode_text(piece);
        let ghost old_len = out@.len() as int;
        let ghost old_out = out@;
        match line {
            Some(s) => {
                out.push(s);
            },
            None => {
                assert(false);
            },
        }
        proof {
            let lf = lines_from(b@, start as int);
            let next = if nl < b@.len() { lines_from(b@, nl + 1) } else { Seq::<Seq<u8>>::empty() };
            assert(lf =~= seq![body] + next);
            assert(all[old_len] == body);
            assert(all.take(old_len + 1) =~= all.take(old_len).push(body));
            assert(all =~= all.take(out@.len() as int) + next);
            assert forall|k: int| 0 <= k < out@.len() implies #[trigger] out@[k]@ == decode_utf8(all[k]) by {
                if k < old_len {
                    assert(out@[k] == old_out[k]);
                }
            }
        }
        start = if nl < b.len() { nl + 1 } else { b.len() };
        proof {
            if nl == b@.len() {
                assert(b@.subrange(start as int, b@.len() as int) =~= Seq::<u8>::empty());
            }
        }
    }
    proof {
        if start >= b@.len() {
            assert(lines_from(b@, start as int) =~= Seq::<Seq<u8>>::empty());
            assert(all =~= all.take(out@.len() as int));
        }
        assert(first_lines(b@, n as nat) =~= all.take(out@.len() as int));
    }
    out
}

/// No line holds a newline, and asking for the first `n` lines gives at most
/// `n` of them.
pub proof fn law_lines_hold_no_newline(b: Seq<u8>, n: nat)
    ensures
        first_lines(b, n).len() <= n,
        forall|k: int, j: int|
            0 <= k < text_lines(b).len() && 0 <= j < text_lines(b)[k].len() ==> #[trigger] text_lines(
                b,
            )[k][j] != NEWLINE,
{
    lemma_lines_from_no_newline(b, 0);
}

proof fn lemma_lines_from_no_newline(b: Seq<u8>, start: int)
    requires
        0 <= start,
    ensures
        forall|k: int, j: int|
            0 <= k < lines_from(b, start).len() && 0 <= j < lines_from(b, start)[k].len()
                ==> #[trigger] lines_from(b, start)[k][j] != NEWLINE,
    decreases b.len() - start,
{
    if start < b.len() {
        let nl = newline_from(b, start);
        lemma_newline_from_bounds(b, start);
        let body = line_body(b, start, nl);
        assert forall|j: int| 0 <= j < body.len() implies body[j] != NEWLINE by {
            assert(body[j] == b[start + j]);
        }
        if nl < b.len() {
            lemma_lines_from_no_newline(b, nl + 1);
            let rest = lines_from(b, nl + 1);
            assert(lines_from(b, start) =~= seq![body] + rest);
            assert forall|k: int, j: int|
                0 <= k < lines_from(b, start).len() && 0 <= j < lines_from(b, start)[k].len()
                    implies #[trigger] lines_from(b, start)[k][j] != NEWLINE by {
                if k > 0 {
                    assert(lines_from(b, start)[k] == rest[k - 1]);
                }
            }
        } else {
            assert(lines_from(b, start) =~= seq![body]);
        }
    }
}

} // verus!

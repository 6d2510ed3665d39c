//! Windows ping: the echo loop's decisions and the reading of output lines.
//!
//! Windows pings through ICMP echo requests rather than a command; the caller
//! sends each request and hands the outcome to the functions here, which say
//! what to report and whether to go on.

use vstd::prelude::*;
use crate::decimal::{
    all_digits, ascii_bytes, decimal_chars, decimal_text, decimal_value, is_digit,
    lemma_decimal_chars_bytes,
};
use crate::rtt::{
    digits_end, extract_spec, field_at, fraction_end, lemma_digits_end_at, lemma_leftmost_field_is,
    rtt_nanos, time_key_at, TimePattern,
};
use vstd::utf8::{is_ascii_chars, is_ascii_chars_encode_utf8};
use crate::target::IpAddress;
use crate::text::{has_infix, occurs_at, owned, text_bytes, text_contains};
use crate::{extract_regex, PingCreationError, PingOptions, PingResult};

verus! {

/// A Windows pinger, with the options it runs under.
pub struct WindowsPinger {
    options: PingOptions,
}

/// The asynchronous counterpart of [`WindowsPinger`].
pub struct WindowsAsyncPinger {
    options: PingOptions,
}

/// How an echo request failed.
#[derive(Debug)]
pub enum EchoError {
    /// The request timed out.
    Timeout,
    /// Any other failure, with its debug text.
    Other(String),
}

/// How a Windows ping output line reads: a line that mentions `timed out` or
/// `failure` is a timeout; any other line is a reply when it carries a
/// round-trip time, and skipped otherwise.
pub open spec fn windows_parse_spec(line: String) -> Option<PingResult> {
    if has_infix(text_bytes(line@), text_bytes("timed out"@)) || has_infix(
        text_bytes(line@),
        text_bytes("failure"@),
    ) {
        Some(PingResult::Timeout(line))
    } else {
        extract_spec(TimePattern::Bare, line)
    }
}

fn parse_windows_line(line: String) -> (r: Option<PingResult>)
    ensures
        r == windows_parse_spec(line),
{
    if text_contains(&line, "timed out") || text_contains(&line, "failure") {
        Some(PingResult::Timeout(line))
    } else {
        extract_regex(TimePattern::Bare, line)
    }
}

/// The line reported for a reply: `Reply from <ip>: time=<rtt>ms`.
pub open spec fn reply_line(ip: IpAddress, rtt: u32) -> Seq<char> {
    "Reply from "@ + ip.text() + ": time="@ + decimal_chars(rtt as nat) + "ms"@
}

/// What a failed echo request reports, and whether pinging goes on once the
/// report is delivered: a timeout reports `Request timeout for <ip>` and goes
/// on; any other failure reports that the pinging ended, with a zero exit
/// code and `Ping error: <error>`, and stops.
pub open spec fn error_report(ip: IpAddress, error: EchoError, r: (PingResult, bool)) -> bool {
    match error {
        EchoError::Timeout => {
            &&& r.1
            &&& r.0 matches PingResult::Timeout(l) && l@ == "Request timeout for "@ + ip.text()
        },
        EchoError::Other(text) => {
            &&& !r.1
            &&& r.0 matches PingResult::PingExited(code, l) && code == Some(0i32) && l@
                == "Ping error: "@ + text@
        },
    }
}

/// The report for an answered echo request: a reply with the round-trip time
/// in milliseconds.
pub fn reply_result(ip: &IpAddress, rtt: u32) -> (r: PingResult)
    ensures
        r matches PingResult::Pong(n, l) && n == rtt as u128 * 1_000_000 && l@ == reply_line(*ip, rtt),
{
    let mut line = owned("Reply from ");
    let ip_text = ip.to_text();
    line.push_str(ip_text.as_str());
    line.push_str(": time=");
    let rtt_text = decimal_text(rtt as u64);
    line.push_str(rtt_text.as_str());
    line.push_str("ms");
    PingResult::Pong(rtt as u128 * 1_000_000, line)
}

/// Handle a failed echo request, telling a timeout from other failures: gives
/// the report to deliver and whether to keep pinging once it is delivered.
pub fn handle_ping_error(ip: &IpAddress, error: EchoError) -> (r: (PingResult, bool))
    ensures
        error_report(*ip, error, r),
{
    match error {
        EchoError::Timeout => {
            let mut line = owned("Request timeout for ");
            let ip_text = ip.to_text();
            line.push_str(ip_text.as_str());
            (PingResult::Timeout(line), true)
        },
        EchoError::Other(text) => {
            let mut line = owned("Ping error: ");
            line.push_str(text.as_str());
            (PingResult::PingExited(Some(0), line), false)
        },
    }
}

/// How long to wait before the next request so that requests start one
/// interval apart: the interval less the time already spent, or nothing when
/// that time exceeds the interval (all in nanoseconds).
pub fn calculate_wait_time(elapsed: u128, interval: u128) -> (r: u128)
    ensures
        r == if elapsed < interval {
            interval - elapsed
        } else {
            0
        },
{
    if elapsed < interval {
        interval - elapsed
    } else {
        0
    }
}

/// The wait never exceeds the interval, and the time spent plus the wait
/// covers at least a whole interval.
pub proof fn law_wait_completes_interval(elapsed: u128, interval: u128)
    ensures
        ({
            let wait = if elapsed < interval {
                interval - elapsed
            } else {
                0
            };
            wait <= interval && elapsed + wait >= interval && (elapsed < interval ==> elapsed
                + wait == interval)
        }),
{
}

/// Timeouts never stop the echo loop; every other failure does.
pub proof fn law_only_timeouts_continue(ip: IpAddress, error: EchoError, r: (PingResult, bool))
    requires
        error_report(ip, error, r),
    ensures
        r.1 <==> error is Timeout,
{
}

impl WindowsPinger {
    /// The options the pinger runs under.
    pub closed spec fn spec_options(self) -> PingOptions {
        self.options
    }

    /// Create a pinger from options; this always succeeds.
    pub fn from_options(options: PingOptions) -> (r: Result<Self, PingCreationError>)
        ensures
            r matches Ok(p) && p.spec_options() == options,
    {
        Ok(WindowsPinger { options })
    }

    /// The options the pinger runs under.
    pub fn options(&self) -> (r: &PingOptions)
        ensures
            *r == self.spec_options(),
    {
        &self.options
    }

    /// Reads one line of ping output.
    pub fn parse_line(line: String) -> (r: Option<PingResult>)
        ensures
            r == windows_parse_spec(line),
    {
        parse_windows_line(line)
    }
}

impl WindowsAsyncPinger {
    /// The options the pinger runs under.
    pub closed spec fn spec_options(self) -> PingOptions {
        self.options
    }

    /// Create a pinger from options; this always succeeds.
    pub fn from_options(options: PingOptions) -> (r: Result<Self, PingCreationError>)
        ensures
            r matches Ok(p) && p.spec_options() == options,
    {
        Ok(WindowsAsyncPinger { options })
    }

    /// The options the pinger runs under.
    pub fn options(&self) -> (r: &PingOptions)
        ensures
            *r == self.spec_options(),
    {
        &self.options
    }

    /// Reads one line of ping output.
    pub fn parse_line(line: String) -> (r: Option<PingResult>)
        ensures
            r == windows_parse_spec(line),
    {
        parse_windows_line(line)
    }
}

/// A character that may stand in the text of an IP address: a hexadecimal
/// digit, `.` or `:`.
pub open spec fn address_char(c: char) -> bool {
    ('0' <= c && c <= '9') || ('a' <= c && c <= 'f') || ('A' <= c && c <= 'F') || c == '.' || c
        == ':'
}

/// The text is made of characters that may stand in an IP address.
pub open spec fn address_text(s: Seq<char>) -> bool {
    forall|k: int| 0 <= k < s.len() ==> address_char(#[trigger] s[k])
}

/// The facts about one character of a reply line that reading it back uses:
/// it is ASCII, no `t`/`T` comes before the time field at `p`, and the only `t`
/// and the only `i` are those of its `time=`.
spec fn reply_char_facts(c: char, k: int, p: int) -> bool {
    &&& c <= '\u{7f}'
    &&& k < p ==> c != 't' && c != 'T'
    &&& c == 't' ==> k == p
    &&& c == 'i' ==> k == p + 1
}

/// Reading back the line reported for a reply gives the reply's round-trip
/// time, for every address written with address characters and every time.
pub proof fn law_reply_line_reads_back(ip: IpAddress, rtt: u32, line: String)
    requires
        address_text(ip.text()),
        line@ == reply_line(ip, rtt),
    ensures
        windows_parse_spec(line) == Some(PingResult::Pong((rtt as u128 * 1_000_000) as u128, line)),
{
    reveal_strlit("Reply from ");
    reveal_strlit(": time=");
    reveal_strlit("ms");
    reveal_strlit("timed out");
    reveal_strlit("failure");
    let a = "Reply from "@;
    let t = ip.text();
    let m = ": time="@;
    let d = decimal_chars(rtt as nat);
    let u = "ms"@;
    let c = line@;
    lemma_decimal_chars_bytes(rtt as nat);
    assert(c =~= a + t + m + d + u);
    let l = t.len() as int;
    let p = 11 + l + 2;
    let e = p + 5 + d.len();
    assert(c.len() == e + 2);
    assert forall|k: int| 0 <= k < c.len() implies reply_char_facts(#[trigger] c[k], k, p) by {
        if k < 11 {
            assert(c[k] == a[k]);
        } else if k < 11 + l {
            assert(c[k] == t[k - 11]);
            assert(address_char(t[k - 11]));
        } else if k < p + 5 {
            assert(c[k] == m[k - 11 - l]);
        } else if k < e {
            let j = k - p - 5;
            assert(c[k] == d[j]);
            assert(ascii_bytes(d)[j] == d[j] as u8);
            assert(is_digit(ascii_bytes(d)[j]));
        } else {
            assert(c[k] == u[k - e]);
        }
    }
    assert(is_ascii_chars(c)) by {
        assert forall|k: int| 0 <= k < c.len() implies '\0' <= #[trigger] c[k] <= '\u{7f}' by {
            assert(reply_char_facts(c[k], k, p));
        }
    }
    is_ascii_chars_encode_utf8(c);
    let b = text_bytes(c);
    assert(b.len() == c.len());
    assert forall|k: int| 0 <= k < b.len() implies (k < p ==> b[k] != 116 && b[k] != 84) && (
    #[trigger] b[k] == 116 ==> k == p) && (b[k] == 105 ==> k == p + 1) by {
        assert(reply_char_facts(c[k], k, p));
        assert(b[k] == c[k] as u8);
    }
    // The field itself.
    assert(b[p] == c[p] as u8 && c[p] == m[2]);
    assert(b[p + 1] == c[p + 1] as u8 && c[p + 1] == m[3]);
    assert(b[p + 2] == c[p + 2] as u8 && c[p + 2] == m[4]);
    assert(b[p + 3] == c[p + 3] as u8 && c[p + 3] == m[5]);
    assert(b[p + 4] == c[p + 4] as u8 && c[p + 4] == m[6]);
    assert(b[p - 1] == c[p - 1] as u8 && c[p - 1] == m[1]);
    assert(b[e] == c[e] as u8 && c[e] == u[0]);
    assert(time_key_at(b, p));
    assert forall|k: int| p + 5 <= k < e implies is_digit(#[trigger] b[k]) && b[k] == ascii_bytes(
        d,
    )[k - p - 5] by {
        assert(b[k] == c[k] as u8);
        assert(c[k] == d[k - p - 5]);
        assert(is_digit(ascii_bytes(d)[k - p - 5]));
    }
    lemma_digits_end_at(b, p + 5, e);
    assert(fraction_end(b, e) == e);
    assert(field_at(b, p, TimePattern::Bare));
    assert forall|k: int| 0 <= k < p implies !field_at(b, k, TimePattern::Bare) by {
        if field_at(b, k, TimePattern::Bare) {
            assert(time_key_at(b, k));
        }
    }
    lemma_leftmost_field_is(b, 0, p, TimePattern::Bare);
    assert(b.subrange(p + 5, e) =~= ascii_bytes(d));
    assert(rtt_nanos(b, TimePattern::Bare) == Some(rtt as nat * 1_000_000));
    // Neither timeout word occurs.
    let tw = text_bytes("timed out"@);
    let fw = text_bytes("failure"@);
    is_ascii_chars_encode_utf8("timed out"@);
    is_ascii_chars_encode_utf8("failure"@);
    assert(tw[0] == 116 && tw[4] == 100);
    assert(fw[0] == 102 && fw[2] == 105);
    assert forall|i: int| !occurs_at(b, tw, i) by {
        if occurs_at(b, tw, i) {
            assert(b.subrange(i, i + tw.len())[0] == b[i]);
            assert(b.subrange(i, i + tw.len())[4] == b[i + 4]);
            assert(b[i] == 116);
        }
    }
    assert forall|i: int| !occurs_at(b, fw, i) by {
        if occurs_at(b, fw, i) {
            assert(b.subrange(i, i + fw.len())[0] == b[i]);
            assert(b.subrange(i, i + fw.len())[2] == b[i + 2]);
            assert(b[i + 2] == 105);
        }
    }
}

} // verus!

use pinger::linux::LinuxPinger;
use pinger::rtt::TimePattern;
use pinger::windows::WindowsPinger;
use pinger::{exit_report, extract_regex, ExitOutcome, PingResult};

/// The reading of one line, in a form that tests can compare.
#[derive(Debug, PartialEq)]
enum Reading {
    Pong(u128),
    Timeout,
    Unknown,
    Exited,
    Nothing,
}

fn reading(line: &str, result: Option<PingResult>) -> Reading {
    match result {
        Some(PingResult::Pong(n, l)) => {
            assert_eq!(l, line);
            Reading::Pong(n)
        }
        Some(PingResult::Timeout(l)) => {
            assert_eq!(l, line);
            Reading::Timeout
        }
        Some(PingResult::Unknown(l)) => {
            assert_eq!(l, line);
            Reading::Unknown
        }
        Some(PingResult::PingExited(_, _)) => Reading::Exited,
        None => Reading::Nothing,
    }
}

fn linux(line: &str) -> Reading {
    reading(line, LinuxPinger::parse_line(line.to_string()))
}

fn windows_line(line: &str) -> Reading {
    reading(line, WindowsPinger::parse_line(line.to_string()))
}

const MS: u128 = 1_000_000;

#[test]
fn ubuntu() {
    let cases = [
        ("PING google.com (216.58.209.78) 56(84) bytes of data.", Reading::Nothing),
        (
            "64 bytes from mad07s22-in-f14.1e100.net (216.58.209.78): icmp_seq=1 ttl=115 time=9.60 ms",
            Reading::Pong(9 * MS + 600_000),
        ),
        ("no answer yet for icmp_seq=2", Reading::Timeout),
        (
            "64 bytes from mad07s22-in-f14.1e100.net (216.58.209.78): icmp_seq=3 ttl=115 time=12.1 ms",
            Reading::Pong(12 * MS + 100_000),
        ),
        ("", Reading::Nothing),
        ("--- google.com ping statistics ---", Reading::Nothing),
        ("3 packets transmitted, 2 received, 33.3333% packet loss, time 2003ms", Reading::Nothing),
        ("rtt min/avg/max/mdev = 9.600/10.850/12.100/1.250 ms", Reading::Nothing),
    ];
    for (line, expected) in cases {
        assert_eq!(linux(line), expected, "line {line:?}");
    }
}

#[test]
fn debian() {
    let cases = [
        ("PING 1.1.1.1 (1.1.1.1) 56(84) bytes of data.", Reading::Nothing),
        ("64 bytes from 1.1.1.1: icmp_seq=1 ttl=57 time=10.2 ms", Reading::Pong(10 * MS + 200_000)),
        ("64 bytes from 1.1.1.1: icmp_seq=2 ttl=57 time=11 ms", Reading::Pong(11 * MS)),
        ("no answer yet for icmp_seq=3", Reading::Timeout),
        ("64 bytes from 1.1.1.1: icmp_seq=4 ttl=57 time=0.045 ms", Reading::Pong(45_000)),
    ];
    for (line, expected) in cases {
        assert_eq!(linux(line), expected, "line {line:?}");
    }
}

#[test]
fn android() {
    let cases = [
        ("PING google.com (172.217.169.46): 56 data bytes", Reading::Nothing),
        ("64 bytes from 172.217.169.46: seq=0 ttl=118 time=15.123 ms", Reading::Pong(15 * MS + 123_000)),
        ("64 bytes from 172.217.169.46: seq=1 ttl=118 time=16.401 ms", Reading::Pong(16 * MS + 401_000)),
        ("", Reading::Nothing),
    ];
    for (line, expected) in cases {
        assert_eq!(linux(line), expected, "line {line:?}");
    }
}

#[test]
fn alpine() {
    let cases = [
        ("PING 1.1.1.1 (1.1.1.1): 56 data bytes", Reading::Nothing),
        ("64 bytes from 1.1.1.1: seq=0 ttl=42 time=1.234 ms", Reading::Pong(MS + 234_000)),
        ("64 bytes from 1.1.1.1: seq=1 ttl=42 time=20.400 ms", Reading::Pong(20 * MS + 400_000)),
        ("round-trip min/avg/max = 1.234/10.817/20.400 ms", Reading::Nothing),
    ];
    for (line, expected) in cases {
        assert_eq!(linux(line), expected, "line {line:?}");
    }
}

#[test]
fn windows() {
    let cases = [
        ("Pinging google.com [172.217.169.14] with 32 bytes of data:", Reading::Nothing),
        ("Reply from 172.217.169.14: bytes=32 time=14ms TTL=118", Reading::Pong(14 * MS)),
        ("Request timed out.", Reading::Timeout),
        ("Reply from 127.0.0.1: bytes=32 time<1ms TTL=128", Reading::Nothing),
        ("PING: transmit failed. General failure.", Reading::Timeout),
        ("Reply from 172.217.169.14: bytes=32 time=15ms TTL=118", Reading::Pong(15 * MS)),
    ];
    for (line, expected) in cases {
        assert_eq!(windows_line(line), expected, "line {line:?}");
    }
}

#[test]
fn unit_is_optional_only_for_bare_pattern() {
    let line = "time=42";
    assert_eq!(reading(line, extract_regex(TimePattern::Bare, line.to_string())), Reading::Pong(42 * MS));
    assert_eq!(reading(line, extract_regex(TimePattern::WithUnit, line.to_string())), Reading::Nothing);
}

#[test]
fn key_and_unit_ignore_case_and_spaces() {
    let line = "TiMe=7.5   mS";
    assert_eq!(
        reading(line, extract_regex(TimePattern::WithUnit, line.to_string())),
        Reading::Pong(7 * MS + 500_000)
    );
}

#[test]
fn leftmost_field_is_taken() {
    let line = "time=x time=3 ms time=4 ms";
    assert_eq!(reading(line, extract_regex(TimePattern::WithUnit, line.to_string())), Reading::Pong(3 * MS));
}

#[test]
fn point_without_fraction_digits_breaks_unit_match() {
    let line = "time=3. ms";
    assert_eq!(reading(line, extract_regex(TimePattern::WithUnit, line.to_string())), Reading::Nothing);
    assert_eq!(reading(line, extract_regex(TimePattern::Bare, line.to_string())), Reading::Pong(3 * MS));
}

#[test]
fn long_fraction_is_taken_as_nanoseconds() {
    // Seven fraction digits are read as they stand, as nanoseconds.
    let line = "time=1.1234567 ms";
    assert_eq!(
        reading(line, extract_regex(TimePattern::WithUnit, line.to_string())),
        Reading::Pong(MS + 1_234_567)
    );
    let line = "time=2.123456 ms";
    assert_eq!(
        reading(line, extract_regex(TimePattern::WithUnit, line.to_string())),
        Reading::Pong(2 * MS + 123_456)
    );
}

#[test]
fn milliseconds_beyond_u64_give_nothing() {
    let line = "time=18446744073709551616 ms";
    assert_eq!(reading(line, extract_regex(TimePattern::WithUnit, line.to_string())), Reading::Nothing);
    let line = "time=18446744073709551615 ms";
    assert_eq!(
        reading(line, extract_regex(TimePattern::WithUnit, line.to_string())),
        Reading::Pong(18446744073709551615u128 * MS)
    );
}

#[test]
fn fraction_beyond_u64_gives_nothing() {
    let line = "time=1.99999999999999999999 ms";
    assert_eq!(reading(line, extract_regex(TimePattern::WithUnit, line.to_string())), Reading::Nothing);
}

#[test]
fn linux_prefix_decides() {
    // A time field alone is not enough: the line must start with the reply prefix.
    assert_eq!(linux("From 1.1.1.1 icmp_seq=1 time=5 ms"), Reading::Nothing);
    // A reply line without a time field gives nothing.
    assert_eq!(linux("64 bytes from 1.1.1.1: icmp_seq=1 ttl=57"), Reading::Nothing);
    // The timeout prefix must start the line.
    assert_eq!(linux(" no answer yet for icmp_seq=3"), Reading::Nothing);
}

#[test]
fn windows_timeout_words_win_over_time_field() {
    assert_eq!(windows_line("time=5 but the request timed out"), Reading::Timeout);
    assert_eq!(windows_line("Reply time=5 failure"), Reading::Timeout);
}

#[test]
fn non_ascii_text_around_field() {
    let line = "64 bytes from höst.example: icmp_seq=1 ttl=57 time=3.25 ms ✓";
    assert_eq!(linux(line), Reading::Pong(3 * MS + 250_000));
}

#[test]
fn stderr_is_decoded_or_marked() {
    assert_eq!(pinger::stderr_text(b"ping: unknown host\n".to_vec()), "ping: unknown host\n");
    assert_eq!(pinger::stderr_text(vec![0xc3, 0x28]), "<invalid UTF-8>");
}

fn shown(result: Option<PingResult>) -> String {
    match result {
        Some(r) => r.display_text(""),
        None => "None".to_string(),
    }
}

#[test]
fn display_texts_of_parsed_lines() {
    let cases = [
        ("64 bytes from 1.1.1.1: icmp_seq=1 ttl=57 time=9.60 ms", "9.6ms"),
        ("64 bytes from 1.1.1.1: icmp_seq=2 ttl=57 time=11 ms", "11ms"),
        ("64 bytes from 1.1.1.1: icmp_seq=3 ttl=57 time=0.045 ms", "45µs"),
        ("64 bytes from 1.1.1.1: seq=0 ttl=42 time=1.234 ms", "1.234ms"),
        ("64 bytes from 1.1.1.1: seq=1 ttl=42 time=1234.5 ms", "1.2345s"),
        ("no answer yet for icmp_seq=3", "Timeout"),
        ("PING 1.1.1.1 (1.1.1.1) 56(84) bytes of data.", "None"),
    ];
    for (line, expected) in cases {
        assert_eq!(shown(LinuxPinger::parse_line(line.to_string())), expected, "line {line:?}");
    }
    assert_eq!(shown(WindowsPinger::parse_line("Reply from 8.8.8.8: bytes=32 time=14ms TTL=118".to_string())), "14ms");
    assert_eq!(shown(WindowsPinger::parse_line("Request timed out.".to_string())), "Timeout");
}

#[test]
fn display_texts_of_other_results() {
    assert_eq!(PingResult::Unknown("x".to_string()).display_text(""), "Unknown");
    assert_eq!(
        PingResult::PingExited(Some(1), "ping: bad".to_string()).display_text("exit status: 1"),
        "Exited(exit status: 1, ping: bad)"
    );
    assert_eq!(PingResult::Pong(0, String::new()).display_text(""), "0ns");
    assert_eq!(PingResult::Pong(2_000_000_000, String::new()).display_text(""), "2s");
}

#[test]
fn exit_reports() {
    match exit_report(ExitOutcome::Exited(Some(2)), "err".to_string()) {
        PingResult::PingExited(code, text) => {
            assert_eq!(code, Some(2));
            assert_eq!(text, "err");
        }
        other => panic!("unexpected: {other:?}"),
    }
    match exit_report(ExitOutcome::WaitFailed("no child".to_string()), "err".to_string()) {
        PingResult::PingExited(code, text) => {
            assert_eq!(code, Some(0));
            assert_eq!(text, "Failed to wait for child: no child. Stderr: err");
        }
        other => panic!("unexpected: {other:?}"),
    }
    match exit_report(ExitOutcome::TimedOut, "partial".to_string()) {
        PingResult::PingExited(code, text) => {
            assert_eq!(code, Some(0));
            assert_eq!(text, "Process killed after timeout. Stderr: partial");
        }
        other => panic!("unexpected: {other:?}"),
    }
    assert_eq!(pinger::EXIT_WAIT_SECS, 5);
}

use pinger::fake::{fake_pong, next_fake_result, FakePinger};
use pinger::target::IpAddress;
use pinger::windows::{calculate_wait_time, handle_ping_error, reply_result, EchoError, WindowsPinger};
use pinger::{PingOptions, PingResult};
use std::time::Duration;

fn ip() -> IpAddress {
    IpAddress::V4("8.8.8.8".to_string())
}

#[test]
fn reply_reports_round_trip() {
    match reply_result(&ip(), 23) {
        PingResult::Pong(n, line) => {
            assert_eq!(n, 23_000_000);
            assert_eq!(line, "Reply from 8.8.8.8: time=23ms");
        }
        other => panic!("unexpected: {other:?}"),
    }
    match reply_result(&IpAddress::V6("::1".to_string()), 0) {
        PingResult::Pong(n, line) => {
            assert_eq!(n, 0);
            assert_eq!(line, "Reply from ::1: time=0ms");
        }
        other => panic!("unexpected: {other:?}"),
    }
}

#[test]
fn reply_line_reads_back() {
    if let PingResult::Pong(n, line) = reply_result(&ip(), 4_294_967_295) {
        assert_eq!(line, "Reply from 8.8.8.8: time=4294967295ms");
        match WindowsPinger::parse_line(line) {
            Some(PingResult::Pong(m, _)) => assert_eq!(m, n),
            other => panic!("unexpected: {other:?}"),
        }
    } else {
        panic!("expected a reply");
    }
}

#[test]
fn timeout_keeps_pinging() {
    let (result, go_on) = handle_ping_error(&ip(), EchoError::Timeout);
    assert!(go_on);
    match result {
        PingResult::Timeout(line) => assert_eq!(line, "Request timeout for 8.8.8.8"),
        other => panic!("unexpected: {other:?}"),
    }
}

#[test]
fn other_errors_stop() {
    let (result, go_on) = handle_ping_error(&ip(), EchoError::Other("HostUnreachable".to_string()));
    assert!(!go_on);
    match result {
        PingResult::PingExited(code, line) => {
            assert_eq!(code, Some(0));
            assert_eq!(line, "Ping error: HostUnreachable");
        }
        other => panic!("unexpected: {other:?}"),
    }
}

#[test]
fn wait_time_compensates_elapsed() {
    assert_eq!(calculate_wait_time(200_000_000, 1_000_000_000), 800_000_000);
    assert_eq!(calculate_wait_time(1_000_000_000, 1_000_000_000), 0);
    assert_eq!(calculate_wait_time(3_000_000_000, 1_000_000_000), 0);
    assert_eq!(calculate_wait_time(0, 0), 0);
}

#[test]
fn fake_replies() {
    match fake_pong(87) {
        PingResult::Pong(n, line) => {
            assert_eq!(n, 87_000_000);
            assert_eq!(line, "Fake ping line: 87 ms");
        }
        other => panic!("unexpected: {other:?}"),
    }
    for _ in 0..200 {
        match next_fake_result() {
            PingResult::Pong(n, line) => {
                assert!((50_000_000..150_000_000).contains(&n));
                assert_eq!(n % 1_000_000, 0);
                assert_eq!(line, format!("Fake ping line: {} ms", n / 1_000_000));
            }
            other => panic!("unexpected: {other:?}"),
        }
    }
}

#[test]
fn pingers_keep_their_options() {
    let options = PingOptions::new("fake.example.com".to_string(), None, Duration::from_millis(100), None);
    let pinger = FakePinger::from_options(options).ok().unwrap();
    assert_eq!(pinger.options().interval, Duration::from_millis(100));
    assert_eq!(pinger.options().target.to_text(), "fake.example.com");
    let options = PingOptions::new("8.8.8.8".to_string(), Some(ip()), Duration::from_secs(1), None);
    let pinger = WindowsPinger::from_options(options).ok().unwrap();
    assert_eq!(pinger.options().target.to_text(), "8.8.8.8");
}

#[test]
fn ipv6_reply_line_reads_back() {
    let address = IpAddress::V6("2001:db8:fa::1".to_string());
    if let PingResult::Pong(n, line) = reply_result(&address, 7) {
        match WindowsPinger::parse_line(line.clone()) {
            Some(PingResult::Pong(m, l)) => {
                assert_eq!(m, n);
                assert_eq!(l, line);
            }
            other => panic!("unexpected: {other:?}"),
        }
    } else {
        panic!("expected a reply");
    }
}

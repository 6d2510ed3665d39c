use pinger::linux::{LinuxAsyncPinger, LinuxPinger};
use pinger::target::{IpAddress, Target};
use pinger::{PingCreationError, PingOptions};
use std::time::Duration;

fn opts() -> PingOptions {
    PingOptions::new("foo".to_string(), None, Duration::from_secs(1), None)
}

const IPUTILS_V: &str = "ping from iputils 20211215\nlibcap: yes, IDN: yes, NLS: no, error.h: yes, getrandom(): yes, __fpending(): yes\n";
const BUSYBOX_V: &str = "ping: unrecognized option '-V'\nBusyBox v1.36.1 (2023-07-27 17:12:24 UTC) multi-call binary.\n\nUsage: ping [OPTIONS] HOST\n";

#[test]
fn test_linux_detection() {
    // `ping -V` on Alpine (BusyBox) prints its banner on stderr.
    let platform = LinuxPinger::detect_platform_ping(opts(), Vec::new(), BUSYBOX_V.as_bytes().to_vec()).unwrap();
    assert!(matches!(platform, LinuxPinger::BusyBox(_)));
    // `ping -V` on Ubuntu (iputils) prints its version on stdout.
    let platform = LinuxPinger::detect_platform_ping(opts(), IPUTILS_V.as_bytes().to_vec(), Vec::new()).unwrap();
    assert!(matches!(platform, LinuxPinger::IPTools(_)));
}

#[test]
fn busybox_marker_wins() {
    let platform =
        LinuxPinger::detect_platform_ping(opts(), IPUTILS_V.as_bytes().to_vec(), BUSYBOX_V.as_bytes().to_vec()).unwrap();
    assert!(matches!(platform, LinuxPinger::BusyBox(_)));
    let platform = LinuxAsyncPinger::detect_platform_ping(opts(), IPUTILS_V.as_bytes().to_vec(), Vec::new()).unwrap();
    assert!(matches!(platform, LinuxAsyncPinger::IPTools(_)));
}

#[test]
fn inetutils_not_supported() {
    let out = b"ping (GNU inetutils) 2.4\nCopyright (C) 2022 Free Software Foundation, Inc.\n".to_vec();
    match LinuxPinger::detect_platform_ping(opts(), out, Vec::new()) {
        Err(PingCreationError::NotSupported { alternative }) => {
            assert_eq!(alternative, "Please use iputils ping, not inetutils.")
        }
        other => panic!("unexpected: {other:?}"),
    }
}

#[test]
fn unknown_ping_keeps_two_lines() {
    let out = b"some ping 1.0\r\nsecond line\nthird line\n".to_vec();
    let err = b"only one line".to_vec();
    match LinuxPinger::detect_platform_ping(opts(), out, err) {
        Err(PingCreationError::UnknownPing { stderr, stdout }) => {
            assert_eq!(stdout, vec!["some ping 1.0".to_string(), "second line".to_string()]);
            assert_eq!(stderr, vec!["only one line".to_string()]);
        }
        other => panic!("unexpected: {other:?}"),
    }
    match LinuxPinger::detect_platform_ping(opts(), Vec::new(), b"\n\nx".to_vec()) {
        Err(PingCreationError::UnknownPing { stderr, stdout }) => {
            assert!(stdout.is_empty());
            assert_eq!(stderr, vec![String::new(), String::new()]);
        }
        other => panic!("unexpected: {other:?}"),
    }
}

#[test]
fn invalid_utf8_is_a_spawn_error() {
    let bad = vec![0x66, 0xff, 0x6f];
    assert!(matches!(
        LinuxPinger::detect_platform_ping(opts(), bad.clone(), BUSYBOX_V.as_bytes().to_vec()),
        Err(PingCreationError::SpawnError(_))
    ));
    assert!(matches!(
        LinuxPinger::detect_platform_ping(opts(), IPUTILS_V.as_bytes().to_vec(), bad),
        Err(PingCreationError::SpawnError(_))
    ));
}

fn strs(v: &[String]) -> Vec<&str> {
    v.iter().map(|s| s.as_str()).collect()
}

#[test]
fn iputils_arguments() {
    let options = PingOptions::new("tomforb.es".to_string(), None, Duration::from_millis(500), Some("eth0".to_string()))
        .with_raw_arguments(vec!["-c".to_string(), "3".to_string()]);
    let pinger = LinuxPinger::IPTools(options);
    let (cmd, args) = pinger.ping_args("0.5");
    assert_eq!(cmd, "ping");
    assert_eq!(strs(&args), vec!["-O", "-i0.5", "-I", "eth0", "-c", "3", "tomforb.es"]);
}

#[test]
fn busybox_arguments() {
    let options = PingOptions::new_ipv6(
        "::1".to_string(),
        Some(IpAddress::V6("::1".to_string())),
        Duration::from_secs(1),
        Some("eth0".to_string()),
    );
    let pinger = LinuxAsyncPinger::BusyBox(options);
    let (cmd, args) = pinger.ping_args("1.0");
    assert_eq!(cmd, "ping6");
    assert_eq!(strs(&args), vec!["::1", "-i1.0"]);
}

#[test]
fn ipv6_hostname_uses_ping6() {
    let options = PingOptions::from_target(
        Target::new_ipv6("ipv6.example".to_string(), None),
        Duration::from_secs(1),
        None,
    );
    let (cmd, args) = LinuxPinger::IPTools(options).ping_args("1.0");
    assert_eq!(cmd, "ping6");
    assert_eq!(strs(&args), vec!["-O", "-i1.0", "ipv6.example"]);
}

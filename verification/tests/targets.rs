use pinger::target::{IPVersion, IpAddress, Target};
use pinger::utils::{needs_lookup, resolve_target};
use pinger::{PingCreationError, PingOptions};
use std::time::Duration;

fn v4(text: &str) -> IpAddress {
    IpAddress::V4(text.to_string())
}

fn v6(text: &str) -> IpAddress {
    IpAddress::V6(text.to_string())
}

fn text_of(ip: &IpAddress) -> String {
    ip.to_text()
}

#[test]
fn test_resolve_ipv4_address() {
    let target = Target::new_any("8.8.8.8".to_string(), Some(v4("8.8.8.8")));
    let result = resolve_target(&target, None, None);
    assert!(result.is_ok());
    let ip = result.unwrap();
    assert!(!ip.is_ipv6());
    assert_eq!(text_of(&ip), "8.8.8.8");
}

#[test]
fn test_resolve_ipv6_address() {
    let target = Target::new_any("::1".to_string(), Some(v6("::1")));
    let result = resolve_target(&target, None, None);
    assert!(result.is_ok());
    assert!(result.unwrap().is_ipv6());
}

#[test]
fn test_resolve_hostname() {
    let target = Target::new_any("localhost".to_string(), None);
    assert!(needs_lookup(&target, &None));
    // What looking up `localhost` gives on a typical machine.
    let lookup = vec![v6("::1"), v4("127.0.0.1")];
    let result = resolve_target(&target, None, Some(lookup));
    assert!(result.is_ok());
    assert_eq!(text_of(&result.unwrap()), "::1");
}

#[test]
fn test_resolve_invalid_hostname() {
    let target = Target::new_any("this-hostname-does-not-exist-12345.invalid".to_string(), None);
    // The lookup of a name under `.invalid` fails.
    let result = resolve_target(&target, None, None);
    assert!(result.is_err());
    match result {
        Err(PingCreationError::HostnameError(name)) => {
            assert_eq!(name, "this-hostname-does-not-exist-12345.invalid")
        }
        _ => panic!("expected a hostname error"),
    }
}

#[test]
fn test_resolve_ipv4_only() {
    let target = Target::new_ipv4("8.8.8.8".to_string(), Some(v4("8.8.8.8")));
    let result = resolve_target(&target, None, None);
    assert!(result.is_ok());
    assert!(!result.unwrap().is_ipv6());
}

#[test]
fn test_resolve_ipv6_only() {
    let target = Target::new_ipv6("::1".to_string(), Some(v6("::1")));
    let result = resolve_target(&target, None, None);
    assert!(result.is_ok());
    assert!(result.unwrap().is_ipv6());
}

#[test]
fn test_resolve_ipv4_with_ipv6_constraint() {
    let target = Target::new_ipv6("8.8.8.8".to_string(), Some(v4("8.8.8.8")));
    // The IPv4 literal does not satisfy the IPv6 constraint: it stays a hostname.
    assert!(matches!(&target, Target::Hostname { version: IPVersion::V6, .. }));
    let result = resolve_target(&target, Some(v4("8.8.8.8")), None);
    // Should fail because 8.8.8.8 is IPv4 but IPv6 is required
    assert!(result.is_err());
}

#[test]
fn resolution_skips_addresses_of_other_family() {
    let target = Target::new_ipv4("example.com".to_string(), None);
    let lookup = vec![v6("2606:2800:220:1::"), v4("93.184.215.14"), v4("93.184.215.15")];
    let ip = resolve_target(&target, None, Some(lookup)).unwrap();
    assert_eq!(text_of(&ip), "93.184.215.14");
}

#[test]
fn resolution_fails_without_fitting_address() {
    let target = Target::new_ipv6("v4only.example".to_string(), None);
    let lookup = vec![v4("192.0.2.1")];
    assert!(matches!(
        resolve_target(&target, None, Some(lookup)),
        Err(PingCreationError::HostnameError(_))
    ));
}

#[test]
fn address_targets_need_no_lookup() {
    let target = Target::new_any("10.0.0.1".to_string(), Some(v4("10.0.0.1")));
    assert!(!needs_lookup(&target, &None));
    let ip = resolve_target(&target, None, Some(vec![v4("192.0.2.9")])).unwrap();
    assert_eq!(text_of(&ip), "10.0.0.1");
}

#[test]
fn constructors_pick_target_kind() {
    assert!(Target::new_ipv6("example.com".to_string(), None).is_ipv6());
    assert!(!Target::new_ipv4("::1".to_string(), Some(v6("::1"))).is_ipv6());
    assert!(Target::new_any("::1".to_string(), Some(v6("::1"))).is_ipv6());
    assert!(!Target::new_any("example.com".to_string(), None).is_ipv6());
    assert_eq!(Target::new_ipv4("::1".to_string(), Some(v6("::1"))).to_text(), "::1");
    match Target::new_any("host".to_string(), None) {
        Target::Hostname { domain, version } => {
            assert_eq!(domain, "host");
            assert_eq!(version, IPVersion::Any);
        }
        Target::IP(_) => panic!("expected a hostname"),
    }
}

#[test]
fn options_constructors_and_raw_arguments() {
    let options = PingOptions::new("foo".to_string(), None, Duration::from_secs(1), None);
    assert!(options.raw_arguments.is_none());
    assert!(options.interface.is_none());
    assert_eq!(options.interval, Duration::from_secs(1));
    let options = options.with_raw_arguments(vec!["-c".to_string(), "3".to_string()]);
    assert_eq!(options.raw_arguments, Some(vec!["-c".to_string(), "3".to_string()]));
    let options = PingOptions::new_ipv6("::1".to_string(), Some(v6("::1")), Duration::from_millis(500), Some("eth0".to_string()));
    assert!(options.target.is_ipv6());
    assert_eq!(options.interface.as_deref(), Some("eth0"));
    let options = PingOptions::new_ipv4("tomforb.es".to_string(), None, Duration::from_millis(500), None);
    assert!(matches!(&options.target, Target::Hostname { version: IPVersion::V4, .. }));
    let options = PingOptions::from_target(Target::IP(v4("1.1.1.1")), Duration::from_secs(2), None);
    assert_eq!(options.target.to_text(), "1.1.1.1");
}

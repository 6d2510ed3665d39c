use pinger::decimal::{decimal_text, parse_decimal};

#[test]
fn writes_decimal() {
    assert_eq!(decimal_text(0), "0");
    assert_eq!(decimal_text(7), "7");
    assert_eq!(decimal_text(10), "10");
    assert_eq!(decimal_text(1234567890), "1234567890");
    assert_eq!(decimal_text(u64::MAX), u64::MAX.to_string());
}

#[test]
fn reads_decimal() {
    let b = b"x00420y";
    assert_eq!(parse_decimal(b, 1, 6), Some(420));
    assert_eq!(parse_decimal(b"18446744073709551615", 0, 20), Some(u64::MAX));
    assert_eq!(parse_decimal(b"18446744073709551616", 0, 20), None);
    assert_eq!(parse_decimal(b"99999999999999999999999", 0, 23), None);
}

#[test]
fn round_trip() {
    for n in [0u64, 1, 9, 10, 99, 100, 65535, 4_294_967_295, u64::MAX] {
        let s = decimal_text(n);
        assert_eq!(parse_decimal(s.as_bytes(), 0, s.len()), Some(n));
    }
}

use tcpkali2::cli::{generate_payload, parse_duration, parse_rate, unescape};

#[test]
fn durations_with_units() {
    assert_eq!(parse_duration(b"15s"), Some(15_000_000_000));
    assert_eq!(parse_duration(b"1s"), Some(1_000_000_000));
    assert_eq!(parse_duration(b"7"), Some(7_000_000_000));
    assert_eq!(parse_duration(b"500ms"), Some(500_000_000));
    assert_eq!(parse_duration(b"20us"), Some(20_000));
    assert_eq!(parse_duration(b"3ns"), Some(3));
    assert_eq!(parse_duration(b"2m"), Some(120_000_000_000));
    assert_eq!(parse_duration(b"1h"), Some(3_600_000_000_000));
    assert_eq!(parse_duration(b"0s"), Some(0));
}

#[test]
fn durations_refused() {
    assert_eq!(parse_duration(b""), None);
    assert_eq!(parse_duration(b"s"), None);
    assert_eq!(parse_duration(b"10x"), None);
    assert_eq!(parse_duration(b"10sec"), None);
    assert_eq!(parse_duration(b"-1s"), None);
    assert_eq!(parse_duration(b"1.5s"), None);
    assert_eq!(parse_duration(b"18446744073709551615s"), None);
    assert_eq!(parse_duration(b"99999999999999999999999ns"), None);
    assert_eq!(parse_duration(b"18446744073709551615ns"), Some(u64::MAX));
}

#[test]
fn rates() {
    assert_eq!(parse_rate(b"100"), Some(100));
    assert_eq!(parse_rate(b"0"), Some(0));
    assert_eq!(parse_rate(b"18446744073709551615"), Some(u64::MAX));
    assert_eq!(parse_rate(b"18446744073709551616"), None);
    assert_eq!(parse_rate(b""), None);
    assert_eq!(parse_rate(b"10k"), None);
}

#[test]
fn unescaping() {
    assert_eq!(unescape(b"a\\nb"), b"a\nb".to_vec());
    assert_eq!(unescape(b"\\r\\t\\0\\\\"), b"\r\t\0\\".to_vec());
    assert_eq!(unescape(b"\\q"), b"\\q".to_vec());
    assert_eq!(unescape(b"end\\"), b"end\\".to_vec());
    assert_eq!(unescape(b"plain"), b"plain".to_vec());
    assert_eq!(unescape(b""), Vec::<u8>::new());
}

#[test]
fn payloads() {
    assert_eq!(generate_payload(0, 7), None);
    let p = generate_payload(128, 7).unwrap();
    assert_eq!(p.len(), 128);
    assert!(p.iter().all(|b| b.is_ascii_lowercase()));
    assert_eq!(generate_payload(128, 7).unwrap(), p);
    // First state: x = 7 | 1 = 7, then one xorshift step.
    let mut x: u64 = 7;
    x ^= x << 13;
    x ^= x >> 7;
    x ^= x << 17;
    assert_eq!(p[0], b'a' + (x % 26) as u8);
}

use lo::ssrf::{is_private_ip, parse_v4_first_two, reject_literal_host, HostReject};

#[test]
fn private_ipv4_ranges_are_blocked() {
    for ip in [
        "10.0.0.1",
        "127.0.0.1",
        "0.0.0.0",
        "169.254.169.254",
        "172.16.0.1",
        "172.31.255.255",
        "192.168.1.1",
        "100.64.0.1",
        "100.127.0.1",
        "224.0.0.1",
        "255.255.255.255",
    ] {
        assert!(is_private_ip(ip), "{ip} must be private");
    }
    for ip in ["8.8.8.8", "172.15.0.1", "172.32.0.1", "100.63.0.1", "100.128.0.1", "192.169.0.1", "1.1.1.1"] {
        assert!(!is_private_ip(ip), "{ip} is public");
    }
}

#[test]
fn ipv4_mapped_ipv6_is_classified_as_ipv4_in_any_case() {
    assert!(is_private_ip("::ffff:169.254.169.254"));
    assert!(is_private_ip("::FFFF:127.0.0.1"));
    assert!(is_private_ip("::Ffff:10.1.2.3"));
    assert!(!is_private_ip("::ffff:8.8.8.8"));
}

#[test]
fn ipv6_private_ranges_are_blocked() {
    for ip in ["::1", "::", "fe80::1", "FE80::abcd", "fc00::1", "fd12::3", "ff02::1"] {
        assert!(is_private_ip(ip), "{ip} must be private");
    }
    assert!(!is_private_ip("2606:4700::1111"));
}

#[test]
fn dotted_quads_are_parsed_loosely() {
    assert_eq!(parse_v4_first_two("1.2.3.4"), Some((1, 2)));
    assert_eq!(parse_v4_first_two("999.1.1.1"), Some((999, 1)));
    assert_eq!(parse_v4_first_two("1.2.3"), None);
    assert_eq!(parse_v4_first_two("1..3.4"), None);
    assert_eq!(parse_v4_first_two("a.b.c.d"), None);
    assert_eq!(parse_v4_first_two("65546.0.0.1"), Some((10, 0)));
    assert!(is_private_ip("65546.0.0.1"));
}

#[test]
fn literal_hosts_are_rejected_before_dns() {
    assert_eq!(reject_literal_host("[::1]"), Some(HostReject::PrivateLiteral));
    assert_eq!(reject_literal_host("192.168.0.10"), Some(HostReject::PrivateLiteral));
    assert_eq!(reject_literal_host("localhost"), Some(HostReject::Localhost));
    assert_eq!(reject_literal_host("printer.local"), Some(HostReject::DotLocal));
    assert_eq!(reject_literal_host("example.com"), None);
}

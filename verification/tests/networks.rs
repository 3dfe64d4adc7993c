//! IPv4 addresses and the hosts of a network.

use enl::cidr::{enumerate_hosts, parse_cidr, parse_ipv4, resolve_cidr, sweep_hosts, Ipv4};
use enl::error::ErrKind;

#[test]
fn parse_cidr_basic() {
    assert_eq!(
        parse_cidr("192.0.2.0/24").unwrap(),
        (Ipv4([192, 0, 2, 0]), 24)
    );
    assert_eq!(parse_cidr("10.0.0.0/8").unwrap(), (Ipv4([10, 0, 0, 0]), 8));
}

#[test]
fn parse_cidr_errors() {
    assert!(parse_cidr("192.0.2.0").is_err());
    assert!(parse_cidr("192.0.2.0/33").is_err());
    assert!(parse_cidr("nope/24").is_err());
}

#[test]
fn parse_cidr_says_why() {
    assert_eq!(parse_cidr("192.0.2.0").unwrap_err(), "'/' 無し");
    assert_eq!(
        parse_cidr("nope/24").unwrap_err(),
        "IP: invalid IPv4 address syntax"
    );
    assert_eq!(parse_cidr("192.0.2.0/33").unwrap_err(), "prefix 33 > 32");
    assert_eq!(
        parse_cidr("192.0.2.0/").unwrap_err(),
        "prefix: cannot parse integer from empty string"
    );
    assert_eq!(
        parse_cidr("192.0.2.0/a").unwrap_err(),
        "prefix: invalid digit found in string"
    );
    assert_eq!(
        parse_cidr("192.0.2.0/+").unwrap_err(),
        "prefix: invalid digit found in string"
    );
    assert_eq!(
        parse_cidr("192.0.2.0/256").unwrap_err(),
        "prefix: number too large to fit in target type"
    );
    assert_eq!(parse_cidr("192.0.2.0/+024").unwrap().1, 24);
}

#[test]
fn addresses_are_read_in_their_one_form() {
    assert_eq!(parse_ipv4("0.0.0.0"), Some(Ipv4([0, 0, 0, 0])));
    assert_eq!(
        parse_ipv4("255.255.255.255"),
        Some(Ipv4([255, 255, 255, 255]))
    );
    for bad in [
        "", "1.2.3", "1.2.3.4.5", "01.2.3.4", "1.2.3.256", "1.2.3.", ".1.2.3", "1.2.3.4 ",
        "1.2.3.0x4", "1.2.3.-4", "1.2.3.1000",
    ] {
        assert_eq!(parse_ipv4(bad), None, "{bad}");
    }
    assert_eq!(Ipv4([192, 0, 2, 10]).to_string(), "192.0.2.10");
}

#[test]
fn enumerate_hosts_slash24() {
    let hosts = enumerate_hosts(Ipv4([192, 168, 1, 0]), 24);
    assert_eq!(hosts.len(), 254);
    assert_eq!(hosts.first(), Some(&Ipv4([192, 168, 1, 1])));
    assert_eq!(hosts.last(), Some(&Ipv4([192, 168, 1, 254])));
}

#[test]
fn enumerate_hosts_slash32() {
    let hosts = enumerate_hosts(Ipv4([192, 168, 1, 42]), 32);
    assert_eq!(hosts, vec![Ipv4([192, 168, 1, 42])]);
}

#[test]
fn enumerate_hosts_slash30() {
    let hosts = enumerate_hosts(Ipv4([10, 0, 0, 0]), 30);
    assert_eq!(hosts, vec![Ipv4([10, 0, 0, 1]), Ipv4([10, 0, 0, 2])]);
}

#[test]
fn enumerate_hosts_from_inside_a_network() {
    let hosts = enumerate_hosts(Ipv4([10, 0, 0, 7]), 31);
    assert_eq!(hosts, vec![Ipv4([10, 0, 0, 6]), Ipv4([10, 0, 0, 7])]);
    let hosts = enumerate_hosts(Ipv4([10, 1, 255, 77]), 16);
    assert_eq!(hosts.len(), 65534);
    assert_eq!(hosts[255], Ipv4([10, 1, 1, 0]));
}

#[test]
fn resolve_cidr_from_iface() {
    let (base, prefix) = resolve_cidr(None, Some(Ipv4([192, 168, 1, 130]))).unwrap();
    assert_eq!(base, Ipv4([192, 168, 1, 0]));
    assert_eq!(prefix, 24);
}

#[test]
fn resolve_cidr_explicit_wins() {
    let (base, prefix) =
        resolve_cidr(Some("10.0.0.0/16"), Some(Ipv4([192, 168, 1, 130]))).unwrap();
    assert_eq!(base, Ipv4([10, 0, 0, 0]));
    assert_eq!(prefix, 16);
}

#[test]
fn resolve_cidr_neither_errors() {
    assert!(resolve_cidr(None, None).is_err());
}

#[test]
fn resolve_cidr_names_the_bad_network() {
    let e = resolve_cidr(Some("nope/24"), None).unwrap_err();
    assert_eq!(e.kind, ErrKind::Usage);
    assert_eq!(
        e.detail,
        "CIDR 不正 'nope/24': IP: invalid IPv4 address syntax"
    );
}

#[test]
fn sweep_hosts_none_when_unresolvable() {
    assert!(sweep_hosts(None, None).unwrap().is_none());
}

#[test]
fn sweep_hosts_invalid_explicit_cidr_errors() {
    assert!(sweep_hosts(Some("nope/24"), None).is_err());
}

#[test]
fn sweep_hosts_resolves_from_iface() {
    let hosts = sweep_hosts(None, Some(Ipv4([192, 0, 2, 130]))).unwrap().unwrap();
    assert_eq!(hosts.len(), 254);
    assert_eq!(hosts.first(), Some(&Ipv4([192, 0, 2, 1])));
}

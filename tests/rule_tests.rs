use gatekeeper::model::{Address, IpAddr, L4Protocol};
use gatekeeper::pattern::{wildcard_to_regex, AddressPattern, DomainPattern, InvalidPrefix};
use gatekeeper::rule::{ConnectRule, ConnectRuleEntry, ConnectRulePattern, RuleError, RulePattern};

use L4Protocol::{Tcp, Udp};
use RulePattern::{Any, Specif};

fn v4(a: u8, b: u8, c: u8, d: u8, port: u16) -> Address {
    Address::IpAddr(IpAddr::v4(a, b, c, d), port)
}

fn domain(d: &str, port: u16) -> Address {
    Address::Domain(d.to_owned(), port)
}

fn check_any(rule: &ConnectRule) {
    assert!(rule.check(v4(0, 0, 0, 0, 80), Tcp));
    assert!(rule.check(domain("example.com", 443), Tcp));
    assert!(rule.check(v4(1, 2, 3, 4, 5000), Udp));
    assert!(rule.check(domain("example.com", 60000), Udp));
}

#[test]
fn model_any_match() {
    check_any(&ConnectRule::any());
}

#[test]
fn mod_any_match() {
    check_any(&ConnectRule::any());
}

#[test]
fn none_match() {
    let rule = ConnectRule::none();
    assert!(!rule.check(v4(0, 0, 0, 0, 80), Tcp));
    assert!(!rule.check(domain("example.com", 443), Tcp));
    assert!(!rule.check(v4(1, 2, 3, 4, 5000), Udp));
    assert!(!rule.check(domain("example.com", 60000), Udp));
}

fn actcast_rule() -> ConnectRule {
    let mut rule = ConnectRule::none();
    rule.allow(Specif(AddressPattern::regex(r"(.*\.)?actcast\.io")), Any, Specif(Tcp));
    rule
}

#[test]
fn model_domain_pattern() {
    let rule = actcast_rule();
    assert!(!rule.check(v4(0, 0, 0, 0, 80), Tcp));
    assert!(!rule.check(domain("example.com", 443), Tcp));
    assert!(rule.check(domain("actcast.io", 60000), Tcp));
    assert!(!rule.check(domain("actcast.io", 60000), Udp));
    assert!(rule.check(domain("www.actcast.io", 65535), Tcp));
    assert!(!rule.check(domain("www.actcast.io", 32768), Udp));
}

#[test]
fn mod_domain_pattern() {
    let rule = actcast_rule();
    assert!(!rule.check(v4(0, 0, 0, 0, 80), Tcp));
    assert!(!rule.check(domain("example.com", 443), Tcp));
    assert!(rule.check(domain("actcast.io", 60000), Tcp));
    assert!(!rule.check(domain("actcast.io", 60000), Udp));
}

#[test]
fn domain_wildcard() {
    let cases: Vec<(&str, Vec<&str>, Vec<&str>)> = vec![
        (
            "*.*.example.com",
            vec!["b.a.example.com"],
            vec!["example.com", "a.example.com", "c.b.a.example.com"],
        ),
        (
            "fo*.b*r.*az.example.com",
            vec!["foo.bar.baz.example.com"],
            vec!["fuu.bar.baz.example.com", "foo.var.baz.example.com", "foo.bar.buz.example.com"],
        ),
        (
            "*.execute-api.*-east-*.amazonaws.com",
            vec!["foo.execute-api.us-east-1.amazonaws.com", "foo.execute-api.us-east-2.amazonaws.com"],
            vec![
                "foo.execute-api.us-west-1.amazonaws.com",
                "foo.execute-api.ap-northeast-1.amazonaws.com",
            ],
        ),
    ];
    for (wildcard, matching, unmatching) in cases {
        let mut rule = ConnectRule::none();
        rule.allow(
            Specif(AddressPattern::Domain(DomainPattern::Wildcard { wildcard: wildcard.to_owned() })),
            Specif(443),
            Specif(Tcp),
        );
        for d in matching {
            assert!(rule.check(domain(d, 443), Tcp));
        }
        for d in unmatching {
            assert!(!rule.check(domain(d, 443), Tcp));
        }
    }
}

#[test]
fn address_pattern() {
    let mut rule = ConnectRule::none();
    rule.allow(Specif(AddressPattern::addr(IpAddr::v4(192, 168, 0, 1), 24).unwrap()), Specif(80), Any);
    rule.allow(Specif(AddressPattern::addr(IpAddr::v4(192, 168, 0, 1), 24).unwrap()), Specif(443), Any);
    assert!(!rule.check(v4(0, 0, 0, 0, 80), Tcp));
    assert!(rule.check(v4(192, 168, 0, 0, 80), Tcp));
    assert!(rule.check(v4(192, 168, 0, 0, 443), Tcp));
    assert!(!rule.check(v4(192, 168, 1, 2, 443), Udp));
    assert!(!rule.check(v4(192, 167, 0, 3, 443), Tcp));
    assert!(rule.check(v4(192, 168, 0, 255, 80), Tcp));
    assert!(rule.check(v4(192, 168, 0, 42, 80), Tcp));
    assert!(!rule.check(domain("example.com", 443), Tcp));
    assert!(!rule.check(domain("actcast.io", 60000), Udp));
}

#[test]
fn ipv6_pattern() {
    let mut rule = ConnectRule::none();
    rule.allow(Specif(AddressPattern::addr(IpAddr::v6([0xff01, 0, 0, 0, 0, 0, 0, 0]), 32).unwrap()), Any, Any);
    assert!(rule.check(Address::IpAddr(IpAddr::v6([0xff01, 0, 0, 0, 0, 0, 0, 1]), 80), Tcp));
    assert!(!rule.check(Address::IpAddr(IpAddr::v6([0xffff, 0, 0, 0, 0, 0, 0, 1]), 80), Tcp));
}

#[test]
fn ipv6_segments_are_big_endian() {
    assert_eq!(IpAddr::v6([0xff01, 0, 0, 0, 0, 0, 0, 1]), IpAddr::V6(0xff01_0000_0000_0000_0000_0000_0000_0001));
    assert_eq!(IpAddr::v4(192, 168, 0, 1), IpAddr::V4(0xc0a8_0001));
}

#[test]
fn prefix_zero_matches_every_ipv4_address() {
    let mut rule = ConnectRule::none();
    rule.allow(Specif(AddressPattern::addr(IpAddr::v4(10, 0, 0, 1), 0).unwrap()), Any, Any);
    assert!(rule.check(v4(255, 255, 255, 255, 1), Tcp));
    assert!(!rule.check(Address::IpAddr(IpAddr::V6(1), 1), Tcp));
    assert!(!rule.check(domain("example.com", 1), Tcp));
}

#[test]
fn prefix_32_matches_one_address() {
    let mut rule = ConnectRule::none();
    rule.allow(Specif(AddressPattern::addr(IpAddr::v4(10, 0, 0, 1), 32).unwrap()), Any, Any);
    assert!(rule.check(v4(10, 0, 0, 1, 1), Tcp));
    assert!(!rule.check(v4(10, 0, 0, 2, 1), Tcp));
}

#[test]
fn prefix_too_long_is_rejected() {
    assert_eq!(
        AddressPattern::addr(IpAddr::v4(192, 168, 0, 1), 33),
        Err(InvalidPrefix::V4 { addr: 0xc0a8_0001, prefix: 33 })
    );
    assert_eq!(
        AddressPattern::addr(IpAddr::V6(7), 129),
        Err(InvalidPrefix::V6 { addr: 7, prefix: 129 })
    );
    assert!(AddressPattern::addr(IpAddr::V6(7), 128).is_ok());
}

#[test]
fn allow_then_deny_denies() {
    let p = || ConnectRulePattern::new(Specif(AddressPattern::regex("example")), Specif(443), Any);
    let mut rule = ConnectRule::any();
    let q = p();
    rule.allow(q.address, q.port, q.protocol);
    let q = p();
    rule.deny(q.address, q.port, q.protocol);
    assert!(!rule.check(domain("www.example.com", 443), Tcp));
    assert!(!rule.check(domain("www.example.com", 443), Udp));
    assert!(rule.check(domain("www.example.com", 80), Tcp));
}

#[test]
fn last_entry_wins() {
    let mut rule = ConnectRule::none();
    rule.deny(Any, Specif(22), Any);
    rule.allow(Any, Specif(22), Specif(Tcp));
    assert!(rule.check(v4(1, 1, 1, 1, 22), Tcp));
    assert!(!rule.check(v4(1, 1, 1, 1, 22), Udp));
    assert!(!rule.check(v4(1, 1, 1, 1, 23), Tcp));
}

#[test]
fn base_rule_is_required() {
    assert_eq!(ConnectRule::from_entries(vec![]).unwrap_err(), RuleError::NoBaseRule);
    let not_any = ConnectRuleEntry::Allow(ConnectRulePattern::new(Any, Specif(80), Any));
    assert_eq!(ConnectRule::from_entries(vec![not_any]).unwrap_err(), RuleError::BaseRuleNotAny);
    let bad_prefix = ConnectRuleEntry::Allow(ConnectRulePattern::new(
        Specif(AddressPattern::IpAddr { addr: IpAddr::V4(1), prefix: 40 }),
        Any,
        Any,
    ));
    assert_eq!(
        ConnectRule::from_entries(vec![ConnectRuleEntry::Deny(ConnectRulePattern::any()), bad_prefix]).unwrap_err(),
        RuleError::InvalidPrefix
    );
    let rule = ConnectRule::from_entries(vec![
        ConnectRuleEntry::Deny(ConnectRulePattern::any()),
        ConnectRuleEntry::Allow(ConnectRulePattern::new(Any, Specif(80), Any)),
    ])
    .unwrap();
    assert!(rule.check(v4(1, 2, 3, 4, 80), Udp));
    assert!(!rule.check(v4(1, 2, 3, 4, 81), Udp));
    assert!(!rule.is_any());
    assert!(ConnectRule::any().is_any());
}

#[test]
fn wildcard_regex_text() {
    assert_eq!(wildcard_to_regex("*.a-b.com"), r"\A[A-Za-z0-9-]{1,63}\.a\-b\.com\z");
    assert_eq!(wildcard_to_regex(r"x\*"), r"\Ax\\[A-Za-z0-9-]{1,63}\z");
}

#[test]
fn invalid_regex_matches_nothing() {
    let mut rule = ConnectRule::none();
    rule.allow(Specif(AddressPattern::regex("(unclosed")), Any, Any);
    assert!(!rule.check(domain("(unclosed", 1), Tcp));
}

#[test]
fn uncompilable_regex_is_rejected() {
    let bad = ConnectRuleEntry::Allow(ConnectRulePattern::new(Specif(AddressPattern::regex("(unclosed")), Any, Any));
    assert_eq!(
        ConnectRule::from_entries(vec![ConnectRuleEntry::Deny(ConnectRulePattern::any()), bad]).unwrap_err(),
        RuleError::InvalidRegex
    );
    let good = ConnectRuleEntry::Allow(ConnectRulePattern::new(Specif(AddressPattern::regex(r"\Aa\.b\z")), Any, Any));
    let rule = ConnectRule::from_entries(vec![ConnectRuleEntry::Deny(ConnectRulePattern::any()), good]).unwrap();
    assert!(rule.check(domain("a.b", 1), Tcp));
    assert!(!rule.check(domain("axb", 1), Tcp));
}

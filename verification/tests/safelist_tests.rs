use mitigation_core::net::{IpAddress, IpPrefix};
use mitigation_core::safelist::{covers_addr, is_live, protects, safelist_covers, SafelistEntry};

fn net(addr: u32, len: u8) -> Option<IpPrefix> {
    Some(IpPrefix { addr: IpAddress::V4(addr), len })
}

fn ip(addr: u32) -> IpAddress {
    IpAddress::V4(addr)
}

fn entry(prefix: &str, expires_at: Option<i64>) -> SafelistEntry {
    SafelistEntry {
        prefix: prefix.to_string(),
        added_at: 0,
        added_by: "admin".to_string(),
        reason: None,
        expires_at,
    }
}

#[test]
fn an_entry_protects_until_its_expiry() {
    assert!(is_live(None, i64::MAX));
    assert!(is_live(Some(11), 10));
    assert!(!is_live(Some(10), 10));
    assert!(!is_live(Some(9), 10));
    let list = vec![entry("10.0.0.0/8", Some(100))];
    assert!(safelist_covers(&list, "10.1.2.3", 99));
    assert!(!safelist_covers(&list, "10.1.2.3", 100));
    assert!(!safelist_covers(&list, "10.1.2.3", 101));
}

#[test]
fn any_live_entry_is_enough() {
    let list = vec![
        entry("10.0.0.0/8", Some(5)),
        entry("10.1.0.0/16", None),
        entry("192.0.2.7", None),
        entry("0.0.0.0/0", Some(1)),
    ];
    assert!(safelist_covers(&list, "10.1.2.3", 50));
    assert!(!safelist_covers(&list, "10.2.2.3", 50));
    assert!(safelist_covers(&list, "10.2.2.3", 4));
    assert!(safelist_covers(&list, "8.8.8.8", 0));
    assert!(!safelist_covers(&list, "8.8.8.8", 1));
    assert!(!safelist_covers(&Vec::new(), "10.1.2.3", 0));
}

#[test]
fn a_prefix_that_is_no_network_protects_the_address_written_like_it() {
    let list = vec![entry("192.0.2.7", None), entry("bogus", None)];
    assert!(safelist_covers(&list, "192.0.2.7", 0));
    assert!(!safelist_covers(&list, "192.0.2.8", 0));
    assert!(!safelist_covers(&list, "bogus", 0));
    assert!(!safelist_covers(&list, "192.0.2.07", 0));
}

#[test]
fn containment_is_decided_by_network_and_broadcast() {
    let wide = net(0xC0A8_0C22, 16);
    assert!(protects(wide, "192.168.12.34/16", "192.168.0.0", ip(0xC0A8_0000)));
    assert!(protects(wide, "192.168.12.34/16", "192.168.255.255", ip(0xC0A8_FFFF)));
    assert!(!protects(wide, "192.168.12.34/16", "192.169.0.0", ip(0xC0A9_0000)));
    assert!(!protects(wide, "192.168.12.34/16", "192.167.255.255", ip(0xC0A7_FFFF)));
    assert!(protects(net(0, 0), "0.0.0.0/0", "255.255.255.255", ip(u32::MAX)));
    assert!(protects(net(0x0A00_0001, 32), "10.0.0.1/32", "10.0.0.1", ip(0x0A00_0001)));
    assert!(!protects(net(0x0A00_0001, 32), "10.0.0.1/32", "10.0.0.2", ip(0x0A00_0002)));
    assert!(!protects(net(0x0A00_0001, 31), "10.0.0.1/31", "10.0.0.2", ip(0x0A00_0002)));
    assert!(protects(net(0x0A00_0001, 31), "10.0.0.1/31", "10.0.0.0", ip(0x0A00_0000)));
    assert!(!protects(net(0, 0), "0.0.0.0/0", "::", IpAddress::V6(0)));
    assert!(protects(None, "x", "x", ip(7)));
    assert!(!protects(None, "x", "y", ip(7)));
}

#[test]
fn both_families_are_protected() {
    let list = vec![entry("2001:db8::/32", None), entry("10.0.0.0/8", None), entry("fe80::1", None)];
    assert!(safelist_covers(&list, "2001:db8:1::5", 0));
    assert!(safelist_covers(&list, "2001:DB8::", 0));
    assert!(!safelist_covers(&list, "2001:db9::1", 0));
    assert!(safelist_covers(&list, "10.9.9.9", 0));
    assert!(safelist_covers(&list, "fe80::1", 0));
    assert!(!safelist_covers(&list, "fe80::2", 0));
    assert!(!safelist_covers(&list, "::ffff:10.0.0.1", 0));
}

#[test]
fn prefixes_are_read_as_networks() {
    let list = vec![entry("192.168.12.34/16", None)];
    assert!(covers_addr(&list, "192.168.200.1", ip(0xC0A8_C801), 0));
    assert!(!covers_addr(&list, "192.169.0.1", ip(0xC0A9_0001), 0));
    let strict = vec![entry("10.0.0.0/33", None), entry("10.0.0.0/8 ", None), entry("10.0.0/8", None)];
    assert!(!safelist_covers(&strict, "10.1.2.3", 0));
    let padded = vec![entry("010.000.000.000/08", None)];
    assert!(safelist_covers(&padded, "10.1.2.3", 0));
    assert!(!safelist_covers(&list, "192.168.1.1 ", 0));
    assert!(!safelist_covers(&list, "192.168.1", 0));
    assert!(!safelist_covers(&list, "", 0));
}

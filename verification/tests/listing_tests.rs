use mitigation_core::domain::{ActionType, AttackVector, MitigationStatus};
use mitigation_core::listing::{key_before, listing_order, RowKey};
use mitigation_core::repository::page_bounds;
use mitigation_core::text::{bytes_eq, bytes_lt, str_eq, str_lt};

fn key(selected: bool, at: i64, id: u128) -> RowKey {
    RowKey { selected, at, id }
}

#[test]
fn newest_first_then_identifier_then_position() {
    let keys = vec![
        key(true, 10, 5),
        key(true, 30, 9),
        key(false, 99, 0),
        key(true, 10, 2),
        key(true, 30, 9),
        key(true, -5, 1),
    ];
    assert_eq!(listing_order(&keys), vec![1, 4, 3, 0, 5]);
    assert!(key_before(&keys, 1, 4));
    assert!(!key_before(&keys, 4, 1));
    assert!(key_before(&keys, 3, 0));
    assert!(!key_before(&keys, 0, 0));
    assert!(key_before(&keys, 2, 1));
}

#[test]
fn listing_of_nothing_is_empty() {
    assert!(listing_order(&Vec::new()).is_empty());
    assert!(listing_order(&vec![key(false, 1, 1), key(false, 2, 2)]).is_empty());
    assert_eq!(listing_order(&vec![key(true, i64::MIN, u128::MAX), key(true, i64::MAX, 0)]), vec![1, 0]);
}

#[test]
fn pages_are_cut_by_limit_and_offset() {
    assert_eq!(page_bounds(10, 3, 0), (0, 3));
    assert_eq!(page_bounds(10, 3, 9), (9, 10));
    assert_eq!(page_bounds(10, 3, 10), (10, 10));
    assert_eq!(page_bounds(10, 3, 11), (10, 10));
    assert_eq!(page_bounds(10, 0, 4), (4, 4));
    assert_eq!(page_bounds(0, 5, 0), (0, 0));
    assert_eq!(page_bounds(10, u32::MAX, u32::MAX), (10, 10));
    assert_eq!(page_bounds(10, u32::MAX, 2), (2, 10));
}

#[test]
fn texts_are_ordered_by_their_bytes() {
    assert!(str_lt("", "a"));
    assert!(!str_lt("a", ""));
    assert!(!str_lt("", ""));
    assert!(str_lt("ams1", "ams10"));
    assert!(str_lt("ams10", "ams2"));
    assert!(str_lt("Z", "a"));
    assert!(!str_lt("lax1", "lax1"));
    assert!(str_lt("z", "\u{e9}"));
    assert!(bytes_lt(&[1, 2], &[1, 3]));
    assert!(!bytes_lt(&[1, 3], &[1, 2]));
    assert!(bytes_lt(&[0x7f], &[0x80]));
    assert!(str_eq("pop", "pop"));
    assert!(!str_eq("pop", "pop "));
    assert!(!str_eq("pop", "poq"));
    assert!(bytes_eq(&[], &[]));
    assert!(!bytes_eq(&[1], &[]));
}

#[test]
fn stored_names() {
    assert_eq!(AttackVector::UdpFlood.as_str(), "udp_flood");
    assert_eq!(AttackVector::SynFlood.as_str(), "syn_flood");
    assert_eq!(AttackVector::IcmpFlood.as_str(), "icmp_flood");
    assert_eq!(AttackVector::DnsAmp.as_str(), "dns_amp");
    assert_eq!(AttackVector::NtpAmp.as_str(), "ntp_amp");
    assert_eq!(AttackVector::Unknown.as_str(), "unknown");
    assert_eq!(ActionType::Police.as_str(), "police");
    assert_eq!(ActionType::Discard.as_str(), "discard");
    assert_eq!(ActionType::Redirect.as_str(), "redirect");
    assert_eq!(MitigationStatus::Pending.as_str(), "pending");
    assert_eq!(MitigationStatus::Active.as_str(), "active");
    assert_eq!(MitigationStatus::Escalated.as_str(), "escalated");
    assert_eq!(MitigationStatus::Withdrawing.as_str(), "withdrawing");
    assert_eq!(MitigationStatus::Withdrawn.as_str(), "withdrawn");
    assert_eq!(MitigationStatus::Rejected.as_str(), "rejected");
    for st in [
        MitigationStatus::Pending,
        MitigationStatus::Active,
        MitigationStatus::Escalated,
        MitigationStatus::Withdrawing,
        MitigationStatus::Withdrawn,
        MitigationStatus::Rejected,
    ] {
        assert_eq!(MitigationStatus::from_name(st.as_str()), Some(st));
    }
    assert_eq!(MitigationStatus::from_name("Active"), None);
    for a in [ActionType::Police, ActionType::Discard, ActionType::Redirect] {
        assert_eq!(ActionType::from_name(a.as_str()), Some(a));
    }
    assert_eq!(ActionType::from_name(""), None);
    for v in [
        AttackVector::UdpFlood,
        AttackVector::SynFlood,
        AttackVector::IcmpFlood,
        AttackVector::DnsAmp,
        AttackVector::NtpAmp,
        AttackVector::Unknown,
    ] {
        assert_eq!(AttackVector::from_name(v.as_str()), v);
    }
    assert_eq!(AttackVector::from_name("carpet"), AttackVector::Unknown);
    assert!(MitigationStatus::Pending.holds_scope());
    assert!(MitigationStatus::Escalated.holds_scope());
    assert!(!MitigationStatus::Withdrawing.holds_scope());
    assert!(!MitigationStatus::Pending.is_announced());
    assert!(MitigationStatus::Active.is_announced());
    assert!(MitigationStatus::Rejected.is_terminal());
    assert!(!MitigationStatus::Withdrawing.is_terminal());
}

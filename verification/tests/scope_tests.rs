use mitigation_core::action::Action;
use mitigation_core::config::{after_seconds, before_seconds, clamp_ttl, PolicyProfile, Timers};
use mitigation_core::domain::{ActionParams, ActionType, MatchCriteria};
use mitigation_core::guardrails::{validate, validate_with, GuardrailError, MatchFeatures};
use mitigation_core::config::Guardrails;
use mitigation_core::net::{host_prefix_of, prefix_contains, IpAddress, IpPrefix};
use mitigation_core::quota::{check_quota, QuotaCounts, QuotaScope};
use mitigation_core::config::Quotas;
use mitigation_core::scope::{
    canonical_ports_of, encode_scope, fnv128_of, hex128_of, network_of_prefix, scope_key_of, Scope,
};

fn criteria(prefix: &str, protocol: Option<u8>, ports: Vec<u16>) -> MatchCriteria {
    MatchCriteria { dst_prefix: prefix.to_string(), protocol, dst_ports: ports }
}

#[test]
fn the_key_does_not_depend_on_how_the_scope_is_written() {
    let a = scope_key_of(&criteria("10.1.2.3/24", Some(17), vec![443, 53, 80, 53])).unwrap();
    let b = scope_key_of(&criteria("10.1.2.0/24", Some(17), vec![53, 80, 443])).unwrap();
    let c = scope_key_of(&criteria("10.1.2.255/24", Some(17), vec![80, 443, 53, 443, 80])).unwrap();
    assert_eq!(a, b);
    assert_eq!(a, c);
    assert_eq!(a.len(), 32);
    assert!(a.chars().all(|ch| ch.is_ascii_digit() || ('a'..='f').contains(&ch)));
}

#[test]
fn the_key_changes_with_the_scope() {
    let base = scope_key_of(&criteria("10.1.2.0/24", Some(17), vec![53])).unwrap();
    let others = [
        criteria("10.1.3.0/24", Some(17), vec![53]),
        criteria("10.1.2.0/25", Some(17), vec![53]),
        criteria("10.1.2.0/24", Some(6), vec![53]),
        criteria("10.1.2.0/24", None, vec![53]),
        criteria("10.1.2.0/24", Some(0), vec![53]),
        criteria("10.1.2.0/24", Some(17), vec![54]),
        criteria("10.1.2.0/24", Some(17), vec![]),
        criteria("10.1.2.0/24", Some(17), vec![53, 54]),
        criteria("::a01:200/120", Some(17), vec![53]),
    ];
    let mut seen = vec![base];
    for c in others.iter() {
        let k = scope_key_of(c).unwrap();
        assert!(!seen.contains(&k));
        seen.push(k);
    }
    assert_eq!(scope_key_of(&criteria("10.1.2.0", Some(17), vec![53])), None);
    assert_eq!(scope_key_of(&criteria("", None, vec![])), None);
}

#[test]
fn canonical_form() {
    assert_eq!(canonical_ports_of(&vec![443, 53, 80, 53, 0, 65535, 80]), vec![0, 53, 80, 443, 65535]);
    assert_eq!(canonical_ports_of(&Vec::new()), Vec::<u16>::new());
    let net = network_of_prefix(IpPrefix { addr: IpAddress::V4(0xC0A8_0C22), len: 16 });
    assert_eq!(net, IpPrefix { addr: IpAddress::V4(0xC0A8_0000), len: 16 });
    let all = network_of_prefix(IpPrefix { addr: IpAddress::V4(0xC0A8_0C22), len: 0 });
    assert_eq!(all, IpPrefix { addr: IpAddress::V4(0), len: 0 });
    let host = network_of_prefix(IpPrefix { addr: IpAddress::V4(0xC0A8_0C22), len: 32 });
    assert_eq!(host, IpPrefix { addr: IpAddress::V4(0xC0A8_0C22), len: 32 });
    let six = network_of_prefix(IpPrefix { addr: IpAddress::V6(u128::MAX), len: 64 });
    assert_eq!(six, IpPrefix { addr: IpAddress::V6(0xffff_ffff_ffff_ffff_0000_0000_0000_0000), len: 64 });
    let scope = Scope::new(IpPrefix { addr: IpAddress::V4(0x0A01_0203), len: 24 }, Some(17), &vec![80, 53]);
    assert_eq!(
        encode_scope(&scope),
        vec![4, 10, 1, 2, 0, 24, 1, 17, 0, 53, 0, 80]
    );
    let any = Scope::new(IpPrefix { addr: IpAddress::V6(1), len: 128 }, None, &vec![256]);
    let bytes = encode_scope(&any);
    assert_eq!(bytes.len(), 1 + 16 + 1 + 2 + 2);
    assert_eq!(bytes[0], 6);
    assert_eq!(bytes[16], 1);
    assert_eq!(&bytes[17..], &[128, 0, 0, 1, 0]);
}

#[test]
fn fnv_1a_and_hexadecimal() {
    assert_eq!(fnv128_of(b""), 0x6c62272e07bb014262b821756295c58d);
    assert_eq!(fnv128_of(b"a"), 0xd228cb696f1a8caf78912b704e4a8964);
    assert_eq!(hex128_of(0), "00000000000000000000000000000000");
    assert_eq!(hex128_of(u128::MAX), "ffffffffffffffffffffffffffffffff");
    assert_eq!(hex128_of(0x0123456789abcdef0fedcba987654321), "0123456789abcdef0fedcba987654321");
    assert_eq!(hex128_of(0xd228cb696f1a8caf78912b704e4a8964), "d228cb696f1a8caf78912b704e4a8964");
}

fn rails() -> Guardrails {
    Guardrails {
        require_ttl: true,
        dst_prefix_minlen_v4: 24,
        dst_prefix_maxlen_v4: 32,
        dst_prefix_minlen_v6: 64,
        dst_prefix_maxlen_v6: 128,
        max_ports: 2,
        allow_src_prefix_match: false,
        allow_tcp_flags_match: true,
        allow_fragment_match: false,
        allow_packet_length_match: false,
    }
}

#[test]
fn guardrail_rejects_too_many_ports() {
    let victim = IpAddress::V4(0xCB00_710A);
    let none = MatchFeatures::none();
    let discard = ActionParams { rate_bps: None };
    let r = validate(
        &rails(),
        &criteria("203.0.113.10/32", Some(17), vec![53, 80, 443]),
        victim,
        none,
        ActionType::Discard,
        discard,
        Some(120),
    );
    assert_eq!(r, Err(GuardrailError::TooManyPorts));
    assert_eq!(r.unwrap_err().as_str(), "TooManyPorts");
    let ok = validate(
        &rails(),
        &criteria("203.0.113.10/32", Some(17), vec![53, 80]),
        victim,
        none,
        ActionType::Discard,
        discard,
        Some(120),
    );
    assert_eq!(ok, Ok(()));
}

#[test]
fn guardrails_give_the_first_reason() {
    let victim = IpAddress::V4(0xCB00_710A);
    let none = MatchFeatures::none();
    let discard = ActionParams { rate_bps: None };
    let check = |prefix: &str, ports: Vec<u16>, f: MatchFeatures, a: ActionType, p: ActionParams, ttl: Option<u32>| {
        validate(&rails(), &criteria(prefix, None, ports), victim, f, a, p, ttl)
    };
    assert_eq!(
        check("203.0.0.0/16", vec![], none, ActionType::Discard, discard, Some(1)),
        Err(GuardrailError::PrefixTooBroad)
    );
    assert_eq!(
        check("nonsense", vec![1, 2, 3], none, ActionType::Discard, discard, None),
        Err(GuardrailError::VictimNotInPrefix)
    );
    assert_eq!(
        check("203.0.114.0/24", vec![1, 2, 3], none, ActionType::Discard, discard, None),
        Err(GuardrailError::VictimNotInPrefix)
    );
    assert_eq!(
        check("2001:db8::/64", vec![], none, ActionType::Discard, discard, Some(1)),
        Err(GuardrailError::VictimNotInPrefix)
    );
    assert_eq!(
        check("2001:db8::/32", vec![], none, ActionType::Discard, discard, Some(1)),
        Err(GuardrailError::PrefixTooBroad)
    );
    let frag = MatchFeatures { fragment: true, ..none };
    assert_eq!(
        check("203.0.113.0/24", vec![1], frag, ActionType::Discard, discard, None),
        Err(GuardrailError::DisallowedMatchFeature)
    );
    let flags = MatchFeatures { tcp_flags: true, ..none };
    assert_eq!(
        check("203.0.113.0/24", vec![1], flags, ActionType::Discard, discard, None),
        Err(GuardrailError::MissingTtl)
    );
    assert_eq!(
        check("203.0.113.0/24", vec![1], none, ActionType::Discard, discard, Some(0)),
        Err(GuardrailError::MissingTtl)
    );
    assert_eq!(
        check("203.0.113.0/24", vec![1], none, ActionType::Police, discard, Some(9)),
        Err(GuardrailError::RateNotPositive)
    );
    assert_eq!(
        check("203.0.113.0/24", vec![1], none, ActionType::Police, ActionParams { rate_bps: Some(0) }, Some(9)),
        Err(GuardrailError::RateNotPositive)
    );
    assert_eq!(
        check("203.0.113.0/24", vec![1], none, ActionType::Police, ActionParams { rate_bps: Some(1) }, Some(9)),
        Ok(())
    );
    let mut narrow = rails();
    narrow.dst_prefix_maxlen_v4 = 28;
    assert_eq!(
        validate_with(
            &narrow,
            Some(host_prefix_of(victim)),
            victim,
            0,
            none,
            ActionType::Discard,
            discard,
            Some(1)
        ),
        Err(GuardrailError::PrefixTooNarrow)
    );
    for (e, name) in [
        (GuardrailError::PrefixTooBroad, "PrefixTooBroad"),
        (GuardrailError::PrefixTooNarrow, "PrefixTooNarrow"),
        (GuardrailError::DisallowedMatchFeature, "DisallowedMatchFeature"),
        (GuardrailError::MissingTtl, "MissingTtl"),
        (GuardrailError::RateNotPositive, "RateNotPositive"),
        (GuardrailError::VictimNotInPrefix, "VictimNotInPrefix"),
    ] {
        assert_eq!(e.as_str(), name);
    }
}

#[test]
fn quotas_name_the_first_cap_reached() {
    let caps = Quotas {
        max_active_per_customer: 2,
        max_active_per_pop: 3,
        max_active_global: 4,
        max_new_per_minute: 5,
    };
    let counts = |c: Option<u32>, p: u32, g: u32, n: u32| QuotaCounts { customer: c, pop: p, global: g, new_per_minute: n };
    assert_eq!(check_quota(&caps, &counts(Some(1), 2, 3, 4)), Ok(()));
    assert_eq!(check_quota(&caps, &counts(Some(2), 3, 4, 5)), Err(QuotaScope::Customer));
    assert_eq!(check_quota(&caps, &counts(None, 3, 4, 5)), Err(QuotaScope::Pop));
    assert_eq!(check_quota(&caps, &counts(Some(1), 2, 4, 5)), Err(QuotaScope::Global));
    assert_eq!(check_quota(&caps, &counts(Some(1), 2, 3, 5)), Err(QuotaScope::Rate));
    assert_eq!(check_quota(&caps, &counts(Some(9), 0, 0, 0)), Err(QuotaScope::Customer));
    assert_eq!(QuotaScope::Customer.as_str(), "customer");
    assert_eq!(QuotaScope::Pop.as_str(), "pop");
    assert_eq!(QuotaScope::Global.as_str(), "global");
    assert_eq!(QuotaScope::Rate.as_str(), "rate");
}

#[test]
fn actions_are_ordered_by_strength() {
    let slow = Action::police(5_000_000);
    let slower = Action::police(1_000_000);
    let d = Action::discard();
    let r = Action::redirect();
    assert!(d.is_stronger_than(&slow));
    assert!(slower.is_stronger_than(&slow));
    assert!(!slow.is_stronger_than(&slower));
    assert!(!slow.is_stronger_than(&slow));
    assert!(!slow.is_stronger_than(&d));
    assert!(!d.is_stronger_than(&d));
    for a in [slow, slower, d, r] {
        assert!(!r.is_stronger_than(&a));
        assert!(!a.is_stronger_than(&r));
    }
}

#[test]
fn times_to_live_are_clamped() {
    assert_eq!(clamp_ttl(120, 30, 1800), 120);
    assert_eq!(clamp_ttl(10, 30, 1800), 30);
    assert_eq!(clamp_ttl(5000, 30, 1800), 1800);
    assert_eq!(clamp_ttl(30, 30, 1800), 30);
    assert_eq!(clamp_ttl(1800, 30, 1800), 1800);
    assert_eq!(clamp_ttl(50, 100, 60), 60);
    let t = Timers {
        default_ttl_seconds: 120,
        min_ttl_seconds: 30,
        max_ttl_seconds: 1800,
        correlation_window_seconds: 0,
        reconciliation_interval_seconds: 0,
        quiet_period_after_withdraw_seconds: 0,
        withdraw_force_grace_seconds: 0,
        permissive_ttl_factor: 3,
    };
    assert_eq!(t.ttl(None, PolicyProfile::Normal), 120);
    assert_eq!(t.ttl(None, PolicyProfile::Strict), 120);
    assert_eq!(t.ttl(None, PolicyProfile::Permissive), 360);
    assert_eq!(t.ttl(Some(60), PolicyProfile::Permissive), 60);
    assert_eq!(t.ttl(Some(5), PolicyProfile::Normal), 30);
    assert_eq!(t.ttl(Some(u32::MAX), PolicyProfile::Normal), 1800);
    let big = Timers { default_ttl_seconds: u32::MAX, permissive_ttl_factor: u32::MAX, max_ttl_seconds: u32::MAX, ..t };
    assert_eq!(big.ttl(None, PolicyProfile::Permissive), u32::MAX);
    assert_eq!(after_seconds(10, 2), 2_000_010);
    assert_eq!(after_seconds(i64::MAX - 5, 1), i64::MAX);
    assert_eq!(before_seconds(10, 2), -1_999_990);
    assert_eq!(before_seconds(i64::MIN + 5, 1), i64::MIN);
}

#[test]
fn prefixes_hold_addresses_of_their_family() {
    let p = IpPrefix { addr: IpAddress::V6(0x2001_0db8 << 96), len: 32 };
    assert!(prefix_contains(p, IpAddress::V6((0x2001_0db8 << 96) | 77)));
    assert!(!prefix_contains(p, IpAddress::V6(0x2001_0db9 << 96)));
    assert!(!prefix_contains(p, IpAddress::V4(0x2001_0db8)));
    assert!(prefix_contains(IpPrefix { addr: IpAddress::V6(5), len: 0 }, IpAddress::V6(u128::MAX)));
    assert!(prefix_contains(host_prefix_of(IpAddress::V6(9)), IpAddress::V6(9)));
    assert!(!prefix_contains(host_prefix_of(IpAddress::V6(9)), IpAddress::V6(8)));
    assert_eq!(host_prefix_of(IpAddress::V4(1)), IpPrefix { addr: IpAddress::V4(1), len: 32 });
}

use mitigation_core::config::{
    Config, Escalation, Guardrails, Mode, PolicyProfile, Quotas, Timers,
};
use mitigation_core::decision::{Decision, Engine, RejectReason};
use mitigation_core::domain::{ActionType, AttackEvent, MitigationStatus};
use mitigation_core::engine::Ingested;
use mitigation_core::guardrails::GuardrailError;
use mitigation_core::inventory::{Customer, Inventory, Service};
use mitigation_core::net::{IpAddress, IpPrefix};
use mitigation_core::playbook::{Playbook, PlaybookStep};
use mitigation_core::domain::AttackVector;
use mitigation_core::quota::QuotaScope;
use mitigation_core::repository::{Repository, StoreError};

const SECOND: i64 = 1_000_000;

fn config() -> Config {
    Config {
        pop: "fra1".to_string(),
        mode: Mode::Enforce,
        timers: Timers {
            default_ttl_seconds: 120,
            min_ttl_seconds: 30,
            max_ttl_seconds: 1800,
            correlation_window_seconds: 300,
            reconciliation_interval_seconds: 30,
            quiet_period_after_withdraw_seconds: 120,
            withdraw_force_grace_seconds: 300,
            permissive_ttl_factor: 2,
        },
        guardrails: Guardrails {
            require_ttl: true,
            dst_prefix_minlen_v4: 32,
            dst_prefix_maxlen_v4: 32,
            dst_prefix_minlen_v6: 128,
            dst_prefix_maxlen_v6: 128,
            max_ports: 8,
            allow_src_prefix_match: false,
            allow_tcp_flags_match: false,
            allow_fragment_match: false,
            allow_packet_length_match: false,
        },
        quotas: Quotas {
            max_active_per_customer: 100,
            max_active_per_pop: 100,
            max_active_global: 1000,
            max_new_per_minute: 100,
        },
        escalation: Escalation {
            enabled: true,
            min_persistence_seconds: 60,
            min_confidence: 800_000,
            max_escalated_duration_seconds: 3600,
        },
        require_known_victim: false,
    }
}

fn v4(a: u8, b: u8, c: u8, d: u8) -> u32 {
    u32::from_be_bytes([a, b, c, d])
}

fn inventory() -> Inventory {
    Inventory {
        customers: vec![
            Customer {
                customer_id: "acme".to_string(),
                prefixes: vec![IpPrefix { addr: IpAddress::V4(v4(203, 0, 113, 0)), len: 24 }],
                services: vec![Service {
                    service_id: "dns".to_string(),
                    assets: vec![IpPrefix { addr: IpAddress::V4(v4(203, 0, 113, 10)), len: 32 }],
                    ports: vec![53],
                }],
                policy_profile: PolicyProfile::Normal,
            },
            Customer {
                customer_id: "strictco".to_string(),
                prefixes: vec![IpPrefix { addr: IpAddress::V4(v4(198, 51, 100, 0)), len: 24 }],
                services: Vec::new(),
                policy_profile: PolicyProfile::Strict,
            },
        ],
    }
}

fn step(action: ActionType, rate: Option<u64>, ttl: Option<u32>) -> PlaybookStep {
    PlaybookStep {
        action,
        rate_bps: rate,
        ttl_seconds: ttl,
        require_confidence_at_least: None,
        require_persistence_seconds: None,
    }
}

fn playbooks() -> Vec<Playbook> {
    vec![Playbook {
        name: "udp".to_string(),
        vector: AttackVector::UdpFlood,
        require_top_ports: false,
        steps: vec![
            step(ActionType::Police, Some(5_000_000), Some(120)),
            PlaybookStep {
                action: ActionType::Discard,
                rate_bps: None,
                ttl_seconds: Some(180),
                require_confidence_at_least: Some(800_000),
                require_persistence_seconds: Some(60),
            },
        ],
    }]
}

fn engine() -> Engine {
    Engine { config: config(), inventory: inventory(), playbooks: playbooks() }
}

fn event(id: u128, victim: &str, ports: &str, confidence: u32) -> AttackEvent {
    AttackEvent {
        event_id: id,
        external_event_id: Some(format!("ext-{}", id)),
        source: "detector-1".to_string(),
        event_timestamp: 0,
        ingested_at: 0,
        victim_ip: victim.to_string(),
        vector: "udp_flood".to_string(),
        protocol: Some(17),
        bps: Some(1_000_000_000),
        pps: Some(100_000),
        top_dst_ports_json: ports.to_string(),
        confidence: Some(confidence),
    }
}

fn decided(r: Result<Ingested, StoreError>) -> Decision {
    match r.unwrap() {
        Ingested::Decided(d) => d,
        Ingested::Duplicate => panic!("duplicate"),
    }
}

#[test]
fn create_then_refresh() {
    let mut e = engine();
    e.playbooks = vec![Playbook {
        name: "udp".to_string(),
        vector: AttackVector::UdpFlood,
        require_top_ports: false,
        steps: vec![step(ActionType::Discard, None, None)],
    }];
    let mut repo = Repository::from_sqlite();
    let t0 = 1_000 * SECOND;
    let d = decided(e.ingest_event_with(&mut repo, &event(1, "203.0.113.10", "[53]", 500_000), t0, 100, 200));
    let created = match d {
        Decision::CreateNew(m) => m,
        other => panic!("{:?}", other),
    };
    assert_eq!(created.status, MitigationStatus::Pending);
    assert_eq!(created.expires_at, t0 + 120 * SECOND);
    assert_eq!(created.created_at, t0);
    assert_eq!(created.pop, "fra1");
    assert_eq!(created.customer_id, Some("acme".to_string()));
    assert_eq!(created.service_id, Some("dns".to_string()));
    assert_eq!(created.match_criteria.dst_prefix, "203.0.113.10/32");
    assert_eq!(created.match_criteria.dst_ports, vec![53]);
    assert_eq!(created.action_type, ActionType::Discard);
    assert_eq!(created.action_params.rate_bps, None);
    assert_eq!(created.withdrawn_at, None);
    assert_eq!(created.triggering_event_id, 1);
    assert_eq!(created.scope_hash.len(), 32);
    assert_eq!(repo.list_mitigations(None, None, 10, 0).unwrap().len(), 1);

    let t1 = t0 + 20 * SECOND;
    let d = decided(e.ingest_event_with(&mut repo, &event(2, "203.0.113.10", "[53]", 500_000), t1, 101, 201));
    let refreshed = match d {
        Decision::Refresh(m) => m,
        other => panic!("{:?}", other),
    };
    assert_eq!(refreshed.mitigation_id, 100);
    assert_eq!(refreshed.updated_at, t1);
    assert_eq!(refreshed.expires_at, t1 + 120 * SECOND);
    assert_eq!(refreshed.last_event_id, 2);
    assert_eq!(refreshed.triggering_event_id, 1);
    let rows = repo.list_mitigations(None, None, 10, 0).unwrap();
    assert_eq!(rows.len(), 1);
    assert_eq!(rows[0].expires_at, t1 + 120 * SECOND);
    assert_eq!(repo.list_events(10, 0).unwrap().len(), 2);
    assert_eq!(repo.list_audit(10, 0).unwrap().len(), 2);
}

#[test]
fn safelist_veto() {
    let e = engine();
    let mut repo = Repository::from_sqlite();
    repo.insert_safelist_at("10.0.0.0/8", "admin", None, 0).unwrap();
    let d = decided(e.ingest_event_with(&mut repo, &event(1, "10.1.2.3", "[53]", 900_000), 5, 100, 200));
    match d {
        Decision::Reject(RejectReason::SafelistVeto, Some(m)) => {
            assert_eq!(m.status, MitigationStatus::Rejected);
            assert_eq!(m.rejection_reason, Some("SafelistVeto".to_string()));
            assert_eq!(m.withdrawn_at, Some(5));
        }
        other => panic!("{:?}", other),
    }
    let rows = repo.list_mitigations(None, None, 10, 0).unwrap();
    assert_eq!(rows.len(), 1);
    assert_eq!(rows[0].status, MitigationStatus::Rejected);
    assert_eq!(repo.count_active_global().unwrap(), 0);
    let audit = repo.list_audit(10, 0).unwrap();
    assert_eq!(audit.len(), 1);
    assert_eq!(audit[0].action, "reject");
    assert_eq!(audit[0].details, "{\"reason\":\"SafelistVeto\"}");
}

#[test]
fn guardrail_reject() {
    let mut e = engine();
    e.config.guardrails.max_ports = 2;
    let mut repo = Repository::from_sqlite();
    let d = decided(e.ingest_event_with(
        &mut repo,
        &event(1, "203.0.113.10", "[53,80,443]", 900_000),
        5,
        100,
        200,
    ));
    match d {
        Decision::Reject(RejectReason::GuardrailViolation(GuardrailError::TooManyPorts), Some(m)) => {
            assert_eq!(m.status, MitigationStatus::Rejected);
            assert_eq!(m.rejection_reason, Some("GuardrailViolation:TooManyPorts".to_string()));
        }
        other => panic!("{:?}", other),
    }
    let d = decided(e.ingest_event_with(&mut repo, &event(2, "203.0.113.10", "[53,80]", 900_000), 5, 101, 201));
    assert!(matches!(d, Decision::CreateNew(_)));
}

#[test]
fn quota() {
    let mut e = engine();
    e.config.quotas.max_active_per_customer = 2;
    let mut repo = Repository::from_sqlite();
    for n in 0..2u128 {
        let d = decided(e.ingest_event_with(
            &mut repo,
            &event(n, &format!("203.0.113.{}", 10 + n), "[53]", 900_000),
            5,
            100 + n,
            200 + n,
        ));
        assert!(matches!(d, Decision::CreateNew(_)));
    }
    let d = decided(e.ingest_event_with(&mut repo, &event(9, "203.0.113.99", "[53]", 900_000), 5, 109, 209));
    match d {
        Decision::Reject(RejectReason::QuotaExceeded(QuotaScope::Customer), Some(m)) => {
            assert_eq!(m.rejection_reason, Some("QuotaExceeded:customer".to_string()));
            assert_eq!(m.status, MitigationStatus::Rejected);
        }
        other => panic!("{:?}", other),
    }
    assert_eq!(repo.count_active_by_customer("acme").unwrap(), 2);
}

#[test]
fn escalate() {
    let e = engine();
    let mut repo = Repository::from_sqlite();
    let t0 = 50 * SECOND;
    let d = decided(e.ingest_event_with(&mut repo, &event(1, "203.0.113.10", "[53]", 900_000), t0, 100, 200));
    let first = match d {
        Decision::CreateNew(m) => m,
        other => panic!("{:?}", other),
    };
    assert_eq!(first.action_type, ActionType::Police);
    assert_eq!(first.action_params.rate_bps, Some(5_000_000));
    assert_eq!(first.expires_at, t0 + 120 * SECOND);
    let mut active = first.clone();
    active.status = MitigationStatus::Active;
    repo.update_mitigation(&active).unwrap();

    let early = decided(e.ingest_event_with(
        &mut repo,
        &event(2, "203.0.113.10", "[53]", 900_000),
        t0 + 30 * SECOND,
        101,
        201,
    ));
    assert!(matches!(early, Decision::Refresh(_)));

    let t1 = t0 + 70 * SECOND;
    let d = decided(e.ingest_event_with(&mut repo, &event(3, "203.0.113.10", "[53]", 900_000), t1, 102, 202));
    let (from, to) = match d {
        Decision::Escalate(from, to) => (from, to),
        other => panic!("{:?}", other),
    };
    assert_eq!(from.mitigation_id, 100);
    assert_eq!(from.status, MitigationStatus::Withdrawing);
    assert_eq!(to.mitigation_id, 102);
    assert_eq!(to.action_type, ActionType::Discard);
    assert_eq!(to.action_params.rate_bps, None);
    assert_eq!(to.escalated_from_id, Some(100));
    assert_eq!(to.status, MitigationStatus::Pending);
    assert_eq!(to.expires_at, t1 + 180 * SECOND);
    assert_eq!(to.scope_hash, from.scope_hash);
    let old = repo.get_mitigation(100).unwrap().unwrap();
    assert_eq!(old.status, MitigationStatus::Withdrawing);
    let holder = repo.find_active_by_scope(&to.scope_hash, "fra1").unwrap().unwrap();
    assert_eq!(holder.mitigation_id, 102);
}

#[test]
fn low_confidence_does_not_escalate() {
    let e = engine();
    let mut repo = Repository::from_sqlite();
    let d = decided(e.ingest_event_with(&mut repo, &event(1, "203.0.113.10", "[53]", 900_000), 0, 100, 200));
    let mut active = match d {
        Decision::CreateNew(m) => m,
        other => panic!("{:?}", other),
    };
    active.status = MitigationStatus::Active;
    repo.update_mitigation(&active).unwrap();
    let d = decided(e.ingest_event_with(
        &mut repo,
        &event(2, "203.0.113.10", "[53]", 700_000),
        70 * SECOND,
        101,
        201,
    ));
    assert!(matches!(d, Decision::Refresh(_)));
}

#[test]
fn events_are_taken_in_once() {
    let e = engine();
    let mut repo = Repository::from_sqlite();
    let ev = event(1, "203.0.113.10", "[53]", 900_000);
    assert!(matches!(e.ingest_event_with(&mut repo, &ev, 0, 100, 200), Ok(Ingested::Decided(_))));
    let mut again = event(77, "203.0.113.11", "[80]", 100_000);
    again.external_event_id = ev.external_event_id.clone();
    assert!(matches!(e.ingest_event_with(&mut repo, &again, 9, 101, 201), Ok(Ingested::Duplicate)));
    assert_eq!(repo.list_events(10, 0).unwrap().len(), 1);
    assert_eq!(repo.list_mitigations(None, None, 10, 0).unwrap().len(), 1);
    assert_eq!(repo.list_audit(10, 0).unwrap().len(), 1);
    let other = event(2, "203.0.113.12", "[53]", 900_000);
    assert!(matches!(
        e.ingest_event_with(&mut repo, &other, 9, 100, 201),
        Err(StoreError::DuplicateKey)
    ));
    assert!(matches!(
        e.ingest_event_with(&mut repo, &other, 9, 101, 200),
        Err(StoreError::DuplicateKey)
    ));
    assert_eq!(repo.list_events(10, 0).unwrap().len(), 1);
    assert!(matches!(e.ingest_event(&mut repo, &other), Ok(Ingested::Decided(Decision::CreateNew(_)))));
}

#[test]
fn events_that_cannot_be_read_are_rejected_without_a_row() {
    let e = engine();
    let mut repo = Repository::from_sqlite();
    let d = decided(e.ingest_event_with(&mut repo, &event(1, "not-an-ip", "[53]", 1), 0, 100, 200));
    assert!(matches!(d, Decision::Reject(RejectReason::InvalidEvent, None)));
    let d = decided(e.ingest_event_with(&mut repo, &event(2, "203.0.113.10", "[70000]", 1), 0, 101, 201));
    assert!(matches!(d, Decision::Reject(RejectReason::InvalidEvent, None)));
    let d = decided(e.ingest_event_with(&mut repo, &event(3, "203.0.113.10", "oops", 1), 0, 102, 202));
    assert!(matches!(d, Decision::Reject(RejectReason::InvalidEvent, None)));
    assert!(repo.list_mitigations(None, None, 10, 0).unwrap().is_empty());
    let audit = repo.list_audit(10, 0).unwrap();
    assert_eq!(audit.len(), 3);
    assert_eq!(audit[0].target_id, None);
    assert_eq!(audit[0].details, "{\"reason\":\"InvalidEvent\"}");
}

#[test]
fn unknown_victims_and_missing_playbooks() {
    let mut e = engine();
    let mut repo = Repository::from_sqlite();
    let d = decided(e.ingest_event_with(&mut repo, &event(1, "192.0.2.1", "[53]", 1), 0, 100, 200));
    match d {
        Decision::CreateNew(m) => assert_eq!(m.customer_id, None),
        other => panic!("{:?}", other),
    }
    e.config.require_known_victim = true;
    let d = decided(e.ingest_event_with(&mut repo, &event(2, "192.0.2.2", "[53]", 1), 0, 101, 201));
    assert!(matches!(d, Decision::Reject(RejectReason::UnknownVictim, Some(_))));
    let mut syn = event(3, "203.0.113.10", "[53]", 1);
    syn.vector = "syn_flood".to_string();
    let d = decided(e.ingest_event_with(&mut repo, &syn, 0, 102, 202));
    assert!(matches!(d, Decision::Reject(RejectReason::NoPlaybook, Some(_))));
}

#[test]
fn strict_customers_are_not_policed_and_ipv6_victims_are_decided() {
    let e = engine();
    let mut repo = Repository::from_sqlite();
    let d = decided(e.ingest_event_with(&mut repo, &event(1, "198.51.100.7", "[53]", 1), 0, 100, 200));
    match d {
        Decision::CreateNew(m) => {
            assert_eq!(m.action_type, ActionType::Discard);
            assert_eq!(m.action_params.rate_bps, None);
            assert_eq!(m.customer_id, Some("strictco".to_string()));
        }
        other => panic!("{:?}", other),
    }
    let d = decided(e.ingest_event_with(&mut repo, &event(2, "2001:db8::1", "[53]", 1), 0, 101, 201));
    match d {
        Decision::CreateNew(m) => assert_eq!(m.match_criteria.dst_prefix, "2001:db8::1/128"),
        other => panic!("{:?}", other),
    }
}

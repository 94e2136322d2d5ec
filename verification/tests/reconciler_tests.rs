use mitigation_core::config::{Config, Escalation, Guardrails, Mode, Quotas, Timers};
use mitigation_core::decision::{Decision, Engine};
use mitigation_core::domain::{ActionType, AttackEvent, AttackVector, Mitigation, MitigationStatus};
use mitigation_core::engine::Ingested;
use mitigation_core::inventory::Inventory;
use mitigation_core::lifecycle::{step, Trigger};
use mitigation_core::playbook::{Playbook, PlaybookStep};
use mitigation_core::reconciler::{
    apply_trigger_with, has_row, is_advertised, next_action_of, Kind, ReconcileAction,
    TransitionError,
};
use mitigation_core::repository::Repository;

const SECOND: i64 = 1_000_000;

fn engine(ttl: u32, quiet: u32) -> Engine {
    Engine {
        config: Config {
            pop: "fra1".to_string(),
            mode: Mode::Enforce,
            timers: Timers {
                default_ttl_seconds: ttl,
                min_ttl_seconds: 1,
                max_ttl_seconds: 1800,
                correlation_window_seconds: 300,
                reconciliation_interval_seconds: 30,
                quiet_period_after_withdraw_seconds: quiet,
                withdraw_force_grace_seconds: 300,
                permissive_ttl_factor: 1,
            },
            guardrails: Guardrails {
                require_ttl: true,
                dst_prefix_minlen_v4: 32,
                dst_prefix_maxlen_v4: 32,
                dst_prefix_minlen_v6: 128,
                dst_prefix_maxlen_v6: 128,
                max_ports: 8,
                allow_src_prefix_match: false,
                allow_tcp_flags_match: false,
                allow_fragment_match: false,
                allow_packet_length_match: false,
            },
            quotas: Quotas {
                max_active_per_customer: 100,
                max_active_per_pop: 100,
                max_active_global: 100,
                max_new_per_minute: 100,
            },
            escalation: Escalation {
                enabled: true,
                min_persistence_seconds: 60,
                min_confidence: 800_000,
                max_escalated_duration_seconds: 3600,
            },
            require_known_victim: false,
        },
        inventory: Inventory { customers: Vec::new() },
        playbooks: vec![Playbook {
            name: "udp".to_string(),
            vector: AttackVector::UdpFlood,
            require_top_ports: false,
            steps: vec![
                PlaybookStep {
                    action: ActionType::Police,
                    rate_bps: Some(5_000_000),
                    ttl_seconds: None,
                    require_confidence_at_least: None,
                    require_persistence_seconds: None,
                },
                PlaybookStep {
                    action: ActionType::Discard,
                    rate_bps: None,
                    ttl_seconds: Some(180),
                    require_confidence_at_least: Some(800_000),
                    require_persistence_seconds: Some(60),
                },
            ],
        }],
    }
}

fn event(id: u128, victim: &str) -> AttackEvent {
    AttackEvent {
        event_id: id,
        external_event_id: None,
        source: "detector-1".to_string(),
        event_timestamp: 0,
        ingested_at: 0,
        victim_ip: victim.to_string(),
        vector: "udp_flood".to_string(),
        protocol: Some(17),
        bps: None,
        pps: None,
        top_dst_ports_json: "[53]".to_string(),
        confidence: Some(900_000),
    }
}

struct Routers {
    advertised: Vec<String>,
    announces: usize,
    withdraws: usize,
}

/// Runs the reconciler until it is idle, with routers that always succeed.
fn settle(e: &Engine, repo: &mut Repository, routers: &mut Routers, now: i64, audit: &mut u128) -> Vec<ReconcileAction> {
    let mut done = Vec::new();
    for _ in 0..100 {
        let (action, rows) = e.reconcile_next(repo, &routers.advertised, now);
        *audit += 1;
        match action {
            ReconcileAction::Idle => return done,
            ReconcileAction::Expire(at) => {
                apply_trigger_with(repo, rows[at].mitigation_id, Trigger::Expire, None, now, *audit).unwrap();
            }
            ReconcileAction::Withdraw { at, .. } => {
                routers.advertised.retain(|s| *s != rows[at].scope_hash);
                routers.withdraws += 1;
                apply_trigger_with(repo, rows[at].mitigation_id, Trigger::WithdrawOk, None, now, *audit).unwrap();
            }
            ReconcileAction::GiveUp(at) => {
                apply_trigger_with(
                    repo,
                    rows[at].mitigation_id,
                    Trigger::AnnounceFailed { exhausted: true },
                    None,
                    now,
                    *audit,
                )
                .unwrap();
            }
            ReconcileAction::Announce(at) => {
                if !routers.advertised.contains(&rows[at].scope_hash) {
                    routers.advertised.push(rows[at].scope_hash.clone());
                }
                routers.announces += 1;
                if rows[at].status == MitigationStatus::Pending {
                    apply_trigger_with(repo, rows[at].mitigation_id, Trigger::AnnounceOk, None, now, *audit).unwrap();
                }
            }
            ReconcileAction::Retire(at) => {
                apply_trigger_with(repo, rows[at].mitigation_id, Trigger::WithdrawOk, None, now, *audit).unwrap();
            }
            ReconcileAction::WithdrawStray(at) => {
                routers.advertised.remove(at);
                routers.withdraws += 1;
            }
        }
        done.push(action);
    }
    panic!("the reconciler did not settle");
}

fn created(e: &Engine, repo: &mut Repository, ev: &AttackEvent, now: i64, id: u128) -> Mitigation {
    match e.ingest_event_with(repo, ev, now, id, id + 1_000_000).unwrap() {
        Ingested::Decided(Decision::CreateNew(m)) => m,
        other => panic!("{:?}", other),
    }
}

#[test]
fn reconciler_expiry() {
    let e = engine(5, 0);
    let mut repo = Repository::from_sqlite();
    let mut routers = Routers { advertised: Vec::new(), announces: 0, withdraws: 0 };
    let mut audit = 0u128;
    let m = created(&e, &mut repo, &event(1, "203.0.113.10"), 0, 100);
    assert_eq!(m.expires_at, 5 * SECOND);
    let done = settle(&e, &mut repo, &mut routers, 1 * SECOND, &mut audit);
    assert_eq!(done, vec![ReconcileAction::Announce(0)]);
    assert_eq!(repo.get_mitigation(100).unwrap().unwrap().status, MitigationStatus::Active);
    assert_eq!(routers.advertised, vec![m.scope_hash.clone()]);
    assert!(settle(&e, &mut repo, &mut routers, 5 * SECOND, &mut audit).is_empty());

    let (first, _) = e.reconcile_next(&repo, &routers.advertised, 6 * SECOND);
    assert_eq!(first, ReconcileAction::Expire(0));
    apply_trigger_with(&mut repo, 100, Trigger::Expire, None, 6 * SECOND, 9_000).unwrap();
    assert_eq!(repo.get_mitigation(100).unwrap().unwrap().status, MitigationStatus::Withdrawing);
    let done = settle(&e, &mut repo, &mut routers, 6 * SECOND, &mut audit);
    assert_eq!(done, vec![ReconcileAction::Withdraw { at: 0, grace_over: false }]);
    let end = repo.get_mitigation(100).unwrap().unwrap();
    assert_eq!(end.status, MitigationStatus::Withdrawn);
    assert_eq!(end.withdrawn_at, Some(6 * SECOND));
    assert!(routers.advertised.is_empty());
    assert_eq!(repo.list_audit(100, 0).unwrap().len(), 4);
}

#[test]
fn escalation_replaces_the_rule() {
    let e = engine(120, 120);
    let mut repo = Repository::from_sqlite();
    let mut routers = Routers { advertised: Vec::new(), announces: 0, withdraws: 0 };
    let mut audit = 0u128;
    created(&e, &mut repo, &event(1, "203.0.113.10"), 0, 100);
    settle(&e, &mut repo, &mut routers, 0, &mut audit);
    let d = e.ingest_event_with(&mut repo, &event(2, "203.0.113.10"), 70 * SECOND, 101, 5_000).unwrap();
    assert!(matches!(d, Ingested::Decided(Decision::Escalate(_, _))));
    let done = settle(&e, &mut repo, &mut routers, 70 * SECOND, &mut audit);
    assert_eq!(done, vec![ReconcileAction::Announce(1), ReconcileAction::Retire(0)]);
    let old = repo.get_mitigation(100).unwrap().unwrap();
    let new = repo.get_mitigation(101).unwrap().unwrap();
    assert_eq!(old.status, MitigationStatus::Withdrawn);
    assert_eq!(new.status, MitigationStatus::Active);
    assert_eq!(new.action_type, ActionType::Discard);
    assert_eq!(new.escalated_from_id, Some(100));
    assert_eq!(routers.withdraws, 0);
    assert_eq!(routers.advertised.len(), 1);
}

#[test]
fn no_announcement_in_the_quiet_period() {
    let e = engine(10, 120);
    let mut repo = Repository::from_sqlite();
    let mut routers = Routers { advertised: Vec::new(), announces: 0, withdraws: 0 };
    let mut audit = 0u128;
    created(&e, &mut repo, &event(1, "203.0.113.10"), 0, 100);
    settle(&e, &mut repo, &mut routers, 0, &mut audit);
    settle(&e, &mut repo, &mut routers, 11 * SECOND, &mut audit);
    assert_eq!(repo.get_mitigation(100).unwrap().unwrap().status, MitigationStatus::Withdrawn);
    assert_eq!(routers.announces, 1);

    let again = created(&e, &mut repo, &event(2, "203.0.113.10"), 20 * SECOND, 101);
    assert_eq!(again.status, MitigationStatus::Pending);
    let done = settle(&e, &mut repo, &mut routers, 21 * SECOND, &mut audit);
    assert!(done.is_empty());
    assert_eq!(routers.announces, 1);
    assert_eq!(repo.get_mitigation(101).unwrap().unwrap().status, MitigationStatus::Pending);
    let done = settle(&e, &mut repo, &mut routers, 31 * SECOND, &mut audit);
    assert_eq!(done, vec![ReconcileAction::GiveUp(1)]);
    let lost = repo.get_mitigation(101).unwrap().unwrap();
    assert_eq!(lost.status, MitigationStatus::Rejected);
    assert_eq!(lost.withdrawn_at, Some(31 * SECOND));

    let later = created(&e, &mut repo, &event(3, "203.0.113.10"), 130 * SECOND, 102);
    assert_eq!(later.status, MitigationStatus::Pending);
    let done = settle(&e, &mut repo, &mut routers, 130 * SECOND, &mut audit);
    assert!(done.is_empty());
    let done = settle(&e, &mut repo, &mut routers, 131 * SECOND + 1, &mut audit);
    assert_eq!(done, vec![ReconcileAction::Announce(2)]);
    assert_eq!(routers.announces, 2);
}

#[test]
fn stray_scopes_are_withdrawn_and_lost_rules_announced_again() {
    let e = engine(600, 0);
    let mut repo = Repository::from_sqlite();
    let mut routers = Routers { advertised: vec!["feed".to_string()], announces: 0, withdraws: 0 };
    let mut audit = 0u128;
    let m = created(&e, &mut repo, &event(1, "203.0.113.10"), 0, 100);
    let done = settle(&e, &mut repo, &mut routers, 0, &mut audit);
    assert_eq!(done, vec![ReconcileAction::Announce(0), ReconcileAction::WithdrawStray(0)]);
    assert_eq!(routers.advertised, vec![m.scope_hash.clone()]);
    routers.advertised.clear();
    let done = settle(&e, &mut repo, &mut routers, SECOND, &mut audit);
    assert_eq!(done, vec![ReconcileAction::Announce(0)]);
    assert_eq!(routers.advertised, vec![m.scope_hash.clone()]);
}

#[test]
fn triggers_follow_the_life_of_a_mitigation() {
    let pending = MitigationStatus::Pending;
    let active = MitigationStatus::Active;
    let escalated = MitigationStatus::Escalated;
    let withdrawing = MitigationStatus::Withdrawing;
    assert_eq!(step(pending, Trigger::AnnounceOk), Some(active));
    assert_eq!(step(pending, Trigger::AnnounceFailed { exhausted: false }), Some(pending));
    assert_eq!(
        step(pending, Trigger::AnnounceFailed { exhausted: true }),
        Some(MitigationStatus::Rejected)
    );
    assert_eq!(step(active, Trigger::Escalate), Some(escalated));
    assert_eq!(step(active, Trigger::Expire), Some(withdrawing));
    assert_eq!(step(active, Trigger::OperatorWithdraw), Some(withdrawing));
    assert_eq!(step(escalated, Trigger::Expire), Some(withdrawing));
    assert_eq!(step(escalated, Trigger::OperatorWithdraw), Some(withdrawing));
    assert_eq!(step(withdrawing, Trigger::WithdrawOk), Some(MitigationStatus::Withdrawn));
    assert_eq!(step(withdrawing, Trigger::WithdrawFailed { grace_over: false }), Some(withdrawing));
    assert_eq!(
        step(withdrawing, Trigger::WithdrawFailed { grace_over: true }),
        Some(MitigationStatus::Withdrawn)
    );
    assert_eq!(step(pending, Trigger::Expire), None);
    assert_eq!(step(escalated, Trigger::Escalate), None);
    assert_eq!(step(active, Trigger::AnnounceOk), None);
    for t in [
        Trigger::AnnounceOk,
        Trigger::Escalate,
        Trigger::Expire,
        Trigger::OperatorWithdraw,
        Trigger::WithdrawOk,
    ] {
        assert_eq!(step(MitigationStatus::Withdrawn, t), None);
        assert_eq!(step(MitigationStatus::Rejected, t), None);
    }
}

#[test]
fn a_trigger_leaves_one_line_in_the_audit_log() {
    let e = engine(600, 0);
    let mut repo = Repository::from_sqlite();
    created(&e, &mut repo, &event(1, "203.0.113.10"), 0, 100);
    assert_eq!(repo.list_audit(10, 0).unwrap().len(), 1);
    assert_eq!(
        apply_trigger_with(&mut repo, 7, Trigger::AnnounceOk, None, 1, 50),
        Err(TransitionError::NotFound)
    );
    assert_eq!(
        apply_trigger_with(&mut repo, 100, Trigger::Expire, None, 1, 50),
        Err(TransitionError::NotAllowed)
    );
    assert_eq!(
        apply_trigger_with(&mut repo, 100, Trigger::AnnounceOk, None, 1, 1_000_100),
        Err(TransitionError::DuplicateKey)
    );
    assert_eq!(repo.list_audit(10, 0).unwrap().len(), 1);
    assert_eq!(
        apply_trigger_with(&mut repo, 100, Trigger::AnnounceOk, None, 2, 50),
        Ok(MitigationStatus::Active)
    );
    assert_eq!(
        apply_trigger_with(&mut repo, 100, Trigger::OperatorWithdraw, Some("alice"), 3, 51),
        Ok(MitigationStatus::Withdrawing)
    );
    assert_eq!(
        apply_trigger_with(&mut repo, 100, Trigger::WithdrawFailed { grace_over: true }, None, 4, 52),
        Ok(MitigationStatus::Withdrawn)
    );
    let log = repo.list_audit(10, 0).unwrap();
    assert_eq!(log.len(), 4);
    assert_eq!(log[0].action, "withdraw_fail");
    assert_eq!(log[1].action, "operator_withdraw");
    assert_eq!(log[1].actor_id, Some("alice".to_string()));
    assert_eq!(log[1].target_id, Some(format!("{:032x}", 100)));
    let row = repo.get_mitigation(100).unwrap().unwrap();
    assert_eq!(row.status, MitigationStatus::Withdrawn);
    assert_eq!(row.updated_at, 4);
    assert_eq!(row.withdrawn_at, Some(4));
}

#[test]
fn rows_and_scopes_are_found() {
    let e = engine(600, 0);
    let mut repo = Repository::from_sqlite();
    let m = created(&e, &mut repo, &event(1, "203.0.113.10"), 0, 100);
    let rows = repo.all_mitigations();
    assert!(has_row(&rows, "fra1", &m.scope_hash, Kind::Pending));
    assert!(has_row(&rows, "fra1", &m.scope_hash, Kind::Claim));
    assert!(!has_row(&rows, "fra1", &m.scope_hash, Kind::Announced));
    assert!(!has_row(&rows, "ams1", &m.scope_hash, Kind::Pending));
    assert!(!has_row(&rows, "fra1", "other", Kind::Pending));
    assert!(!has_row(&rows, "fra1", &m.scope_hash, Kind::WithdrawnSince(i64::MIN)));
    assert!(is_advertised(&vec!["a".to_string(), "b".to_string()], "b"));
    assert!(!is_advertised(&vec!["a".to_string()], "b"));
    assert_eq!(next_action_of(&Vec::new(), &Vec::new(), "fra1", 0, 0, 0), ReconcileAction::Idle);
    assert_eq!(
        next_action_of(&rows, &Vec::new(), "ams1", 0, 0, 0),
        ReconcileAction::Idle
    );
}

use mitigation_core::domain::{
    ActionParams, ActionType, AttackEvent, AttackVector, MatchCriteria, Mitigation,
    MitigationStatus,
};
use mitigation_core::repository::{DbPool, Repository, StoreError};

fn now() -> i64 {
    chrono::Utc::now().timestamp_micros()
}

fn new_id() -> u128 {
    uuid::Uuid::new_v4().as_u128()
}

fn setup_repo() -> Repository {
    Repository::from_sqlite()
}

fn make_mitigation(victim_ip: &str, pop: &str, customer_id: Option<&str>) -> Mitigation {
    let event_id = new_id();
    Mitigation {
        mitigation_id: new_id(),
        scope_hash: format!("hash_{}", victim_ip),
        pop: pop.to_string(),
        customer_id: customer_id.map(String::from),
        service_id: None,
        victim_ip: victim_ip.to_string(),
        vector: AttackVector::UdpFlood,
        match_criteria: MatchCriteria {
            dst_prefix: format!("{}/32", victim_ip),
            protocol: Some(17),
            dst_ports: vec![53],
        },
        action_type: ActionType::Discard,
        action_params: ActionParams { rate_bps: None },
        status: MitigationStatus::Active,
        created_at: now(),
        updated_at: now(),
        expires_at: now() + 3_600_000_000,
        withdrawn_at: None,
        triggering_event_id: event_id,
        last_event_id: event_id,
        escalated_from_id: None,
        reason: "test mitigation".to_string(),
        rejection_reason: None,
    }
}

fn make_event(victim_ip: &str) -> AttackEvent {
    AttackEvent {
        event_id: new_id(),
        external_event_id: Some(format!("ext_{}", victim_ip)),
        source: "test_detector".to_string(),
        event_timestamp: now(),
        ingested_at: now(),
        victim_ip: victim_ip.to_string(),
        vector: "udp_flood".to_string(),
        protocol: Some(17),
        bps: Some(1_000_000_000),
        pps: Some(100_000),
        top_dst_ports_json: "[53]".to_string(),
        confidence: Some(950_000),
    }
}

#[test]
fn test_insert_and_find_event() {
    let mut repo = setup_repo();
    let event = make_event("192.168.1.1");

    repo.insert_event(&event).unwrap();

    let found = repo
        .find_event_by_external_id(&event.source, event.external_event_id.as_ref().unwrap())
        .unwrap();

    assert!(found.is_some());
    let found = found.unwrap();
    assert_eq!(found.event_id, event.event_id);
    assert_eq!(found.victim_ip, "192.168.1.1");
}

#[test]
fn test_find_event_not_found() {
    let repo = setup_repo();

    let found = repo.find_event_by_external_id("unknown", "unknown_id").unwrap();

    assert!(found.is_none());
}

#[test]
fn test_insert_and_get_mitigation() {
    let mut repo = setup_repo();
    let mitigation = make_mitigation("10.0.0.1", "pop1", Some("cust_1"));

    repo.insert_mitigation(&mitigation).unwrap();

    let found = repo.get_mitigation(mitigation.mitigation_id).unwrap();
    assert!(found.is_some());

    let found = found.unwrap();
    assert_eq!(found.victim_ip, "10.0.0.1");
    assert_eq!(found.pop, "pop1");
    assert_eq!(found.customer_id, Some("cust_1".to_string()));
}

#[test]
fn test_get_mitigation_not_found() {
    let repo = setup_repo();

    let found = repo.get_mitigation(new_id()).unwrap();
    assert!(found.is_none());
}

#[test]
fn test_update_mitigation() {
    let mut repo = setup_repo();
    let mut mitigation = make_mitigation("10.0.0.2", "pop1", None);

    repo.insert_mitigation(&mitigation).unwrap();

    mitigation.status = MitigationStatus::Withdrawn;
    mitigation.withdrawn_at = Some(now());
    mitigation.reason = "test withdrawal".to_string();

    repo.update_mitigation(&mitigation).unwrap();

    let found = repo.get_mitigation(mitigation.mitigation_id).unwrap().unwrap();
    assert_eq!(found.status, MitigationStatus::Withdrawn);
    assert!(found.withdrawn_at.is_some());
}

#[test]
fn test_find_active_by_scope() {
    let mut repo = setup_repo();
    let mitigation = make_mitigation("10.0.0.3", "pop1", None);

    repo.insert_mitigation(&mitigation).unwrap();

    let found = repo.find_active_by_scope(&mitigation.scope_hash, "pop1").unwrap();

    assert!(found.is_some());
    assert_eq!(found.unwrap().mitigation_id, mitigation.mitigation_id);
}

#[test]
fn test_find_active_by_scope_wrong_pop() {
    let mut repo = setup_repo();
    let mitigation = make_mitigation("10.0.0.4", "pop1", None);

    repo.insert_mitigation(&mitigation).unwrap();

    let found = repo.find_active_by_scope(&mitigation.scope_hash, "pop2").unwrap();

    assert!(found.is_none());
}

#[test]
fn test_find_active_by_victim() {
    let mut repo = setup_repo();

    let m1 = make_mitigation("10.0.0.5", "pop1", None);
    let m2 = make_mitigation("10.0.0.5", "pop2", None);

    repo.insert_mitigation(&m1).unwrap();
    repo.insert_mitigation(&m2).unwrap();

    let found = repo.find_active_by_victim("10.0.0.5").unwrap();
    assert_eq!(found.len(), 2);
}

#[test]
fn test_list_mitigations() {
    let mut repo = setup_repo();

    repo.insert_mitigation(&make_mitigation("10.0.1.1", "pop1", Some("cust_a"))).unwrap();
    repo.insert_mitigation(&make_mitigation("10.0.1.2", "pop1", Some("cust_b"))).unwrap();
    repo.insert_mitigation(&make_mitigation("10.0.1.3", "pop1", Some("cust_a"))).unwrap();

    let all = repo.list_mitigations(None, None, 100, 0).unwrap();
    assert_eq!(all.len(), 3);

    let cust_a = repo.list_mitigations(None, Some("cust_a"), 100, 0).unwrap();
    assert_eq!(cust_a.len(), 2);

    let active = repo.list_mitigations(Some(&[MitigationStatus::Active]), None, 100, 0).unwrap();
    assert_eq!(active.len(), 3);
}

#[test]
fn test_list_mitigations_pagination() {
    let mut repo = setup_repo();

    for i in 0..10 {
        repo.insert_mitigation(&make_mitigation(&format!("10.0.2.{}", i), "pop1", None)).unwrap();
    }

    let page1 = repo.list_mitigations(None, None, 3, 0).unwrap();
    assert_eq!(page1.len(), 3);

    let page2 = repo.list_mitigations(None, None, 3, 3).unwrap();
    assert_eq!(page2.len(), 3);

    let page4 = repo.list_mitigations(None, None, 3, 9).unwrap();
    assert_eq!(page4.len(), 1);
}

#[test]
fn test_count_active_by_customer() {
    let mut repo = setup_repo();

    repo.insert_mitigation(&make_mitigation("10.0.3.1", "pop1", Some("cust_x"))).unwrap();
    repo.insert_mitigation(&make_mitigation("10.0.3.2", "pop1", Some("cust_x"))).unwrap();
    repo.insert_mitigation(&make_mitigation("10.0.3.3", "pop1", Some("cust_y"))).unwrap();

    let count_x = repo.count_active_by_customer("cust_x").unwrap();
    assert_eq!(count_x, 2);

    let count_y = repo.count_active_by_customer("cust_y").unwrap();
    assert_eq!(count_y, 1);

    let count_z = repo.count_active_by_customer("cust_z").unwrap();
    assert_eq!(count_z, 0);
}

#[test]
fn test_count_active_by_pop() {
    let mut repo = setup_repo();

    repo.insert_mitigation(&make_mitigation("10.0.4.1", "nyc1", None)).unwrap();
    repo.insert_mitigation(&make_mitigation("10.0.4.2", "nyc1", None)).unwrap();
    repo.insert_mitigation(&make_mitigation("10.0.4.3", "lax1", None)).unwrap();

    let nyc = repo.count_active_by_pop("nyc1").unwrap();
    assert_eq!(nyc, 2);

    let lax = repo.count_active_by_pop("lax1").unwrap();
    assert_eq!(lax, 1);
}

#[test]
fn test_count_active_global() {
    let mut repo = setup_repo();

    assert_eq!(repo.count_active_global().unwrap(), 0);

    repo.insert_mitigation(&make_mitigation("10.0.5.1", "pop1", None)).unwrap();
    repo.insert_mitigation(&make_mitigation("10.0.5.2", "pop2", None)).unwrap();

    assert_eq!(repo.count_active_global().unwrap(), 2);
}

#[test]
fn test_safelist_crud() {
    let mut repo = setup_repo();

    repo.insert_safelist("10.0.0.0/8", "admin", Some("internal network")).unwrap();

    let list = repo.list_safelist().unwrap();
    assert_eq!(list.len(), 1);
    assert_eq!(list[0].prefix, "10.0.0.0/8");
    assert_eq!(list[0].added_by, "admin");

    let removed = repo.remove_safelist("10.0.0.0/8").unwrap();
    assert!(removed);

    let list = repo.list_safelist().unwrap();
    assert!(list.is_empty());
}

#[test]
fn test_is_safelisted() {
    let mut repo = setup_repo();

    repo.insert_safelist("10.0.0.0/8", "admin", None).unwrap();
    repo.insert_safelist("192.168.1.100/32", "admin", None).unwrap();

    assert!(repo.is_safelisted("10.1.2.3").unwrap());
    assert!(repo.is_safelisted("10.255.255.255").unwrap());

    assert!(repo.is_safelisted("192.168.1.100").unwrap());

    assert!(!repo.is_safelisted("192.168.1.101").unwrap());
    assert!(!repo.is_safelisted("8.8.8.8").unwrap());
}

#[test]
fn test_list_pops() {
    let mut repo = setup_repo();

    repo.insert_mitigation(&make_mitigation("10.0.6.1", "nyc1", None)).unwrap();
    repo.insert_mitigation(&make_mitigation("10.0.6.2", "nyc1", None)).unwrap();
    repo.insert_mitigation(&make_mitigation("10.0.6.3", "lax1", None)).unwrap();
    repo.insert_mitigation(&make_mitigation("10.0.6.4", "ams1", None)).unwrap();

    let pops = repo.list_pops().unwrap();
    assert_eq!(pops.len(), 3);

    let nyc = pops.iter().find(|p| p.pop == "nyc1").unwrap();
    assert_eq!(nyc.active_mitigations, 2);
    assert_eq!(nyc.total_mitigations, 2);
}

#[test]
fn test_get_stats() {
    let mut repo = setup_repo();

    repo.insert_event(&make_event("10.0.7.1")).unwrap();
    repo.insert_event(&make_event("10.0.7.2")).unwrap();

    repo.insert_mitigation(&make_mitigation("10.0.7.1", "pop1", None)).unwrap();
    repo.insert_mitigation(&make_mitigation("10.0.7.2", "pop2", None)).unwrap();

    let stats = repo.get_stats().unwrap();

    assert_eq!(stats.total_events, 2);
    assert_eq!(stats.total_active, 2);
    assert_eq!(stats.total_mitigations, 2);
    assert_eq!(stats.pops.len(), 2);
}

#[test]
fn test_list_mitigations_all_pops() {
    let mut repo = setup_repo();

    repo.insert_mitigation(&make_mitigation("10.0.8.1", "pop1", Some("cust_1"))).unwrap();
    repo.insert_mitigation(&make_mitigation("10.0.8.2", "pop2", Some("cust_1"))).unwrap();
    repo.insert_mitigation(&make_mitigation("10.0.8.3", "pop3", Some("cust_2"))).unwrap();

    let all = repo.list_mitigations_all_pops(None, None, 100, 0).unwrap();
    assert_eq!(all.len(), 3);

    let cust1 = repo.list_mitigations_all_pops(None, Some("cust_1"), 100, 0).unwrap();
    assert_eq!(cust1.len(), 2);
}

#[test]
fn new_repository_is_empty_and_keeps_its_kind() {
    let repo = Repository::new(DbPool::Postgres);
    assert_eq!(repo.pool(), DbPool::Postgres);
    assert_eq!(Repository::from_sqlite().pool(), DbPool::Sqlite);
    assert_eq!(Repository::from_postgres().pool(), DbPool::Postgres);
    assert!(repo.list_events(10, 0).unwrap().is_empty());
    assert!(repo.list_mitigations(None, None, 10, 0).unwrap().is_empty());
    assert!(repo.list_safelist().unwrap().is_empty());
    assert!(repo.list_audit(10, 0).unwrap().is_empty());
    assert!(repo.list_pops().unwrap().is_empty());
    let stats = repo.get_stats().unwrap();
    assert_eq!((stats.total_active, stats.total_mitigations, stats.total_events), (0, 0, 0));
}

#[test]
fn duplicate_event_is_refused_and_stored_once() {
    let mut repo = setup_repo();
    let first = make_event("10.9.0.1");
    let mut second = make_event("10.9.0.1");
    assert_eq!(first.external_event_id, second.external_event_id);
    assert_eq!(repo.insert_event(&first), Ok(()));
    assert_eq!(repo.insert_event(&second), Err(StoreError::DuplicateKey));
    second.external_event_id = None;
    second.event_id = first.event_id;
    assert_eq!(repo.insert_event(&second), Err(StoreError::DuplicateKey));
    assert_eq!(repo.list_events(10, 0).unwrap().len(), 1);
    second.event_id = new_id();
    assert_eq!(repo.insert_event(&second), Ok(()));
    let mut third = make_event("10.9.0.9");
    third.external_event_id = None;
    assert_eq!(repo.insert_event(&third), Ok(()));
    assert_eq!(repo.list_events(10, 0).unwrap().len(), 3);
}

#[test]
fn events_are_listed_newest_first() {
    let mut repo = setup_repo();
    let stamps: [i64; 4] = [30, 10, 40, 20];
    for (n, at) in stamps.iter().enumerate() {
        let mut e = make_event(&format!("10.9.1.{}", n));
        e.ingested_at = *at;
        repo.insert_event(&e).unwrap();
    }
    let all: Vec<i64> = repo.list_events(10, 0).unwrap().iter().map(|e| e.ingested_at).collect();
    assert_eq!(all, vec![40, 30, 20, 10]);
    let page: Vec<i64> = repo.list_events(2, 1).unwrap().iter().map(|e| e.ingested_at).collect();
    assert_eq!(page, vec![30, 20]);
    assert!(repo.list_events(0, 0).unwrap().is_empty());
    assert!(repo.list_events(5, 4).unwrap().is_empty());
    assert!(repo.list_events(u32::MAX, u32::MAX).unwrap().is_empty());
    assert_eq!(repo.list_events(u32::MAX, 3).unwrap().len(), 1);
}

#[test]
fn mitigations_of_one_instant_are_listed_by_identifier() {
    let mut repo = setup_repo();
    for (n, id) in [7u128, 3, 9, 1].iter().enumerate() {
        let mut m = make_mitigation(&format!("10.9.2.{}", n), "pop1", None);
        m.mitigation_id = *id;
        m.created_at = if *id == 9 { 200 } else { 100 };
        repo.insert_mitigation(&m).unwrap();
    }
    let ids: Vec<u128> =
        repo.list_mitigations(None, None, 10, 0).unwrap().iter().map(|m| m.mitigation_id).collect();
    assert_eq!(ids, vec![9, 1, 3, 7]);
}

#[test]
fn status_filter_is_membership_in_the_given_set() {
    let mut repo = setup_repo();
    let statuses = [
        MitigationStatus::Pending,
        MitigationStatus::Active,
        MitigationStatus::Withdrawn,
        MitigationStatus::Rejected,
    ];
    for (n, st) in statuses.iter().enumerate() {
        let mut m = make_mitigation(&format!("10.9.3.{}", n), "pop1", Some("c"));
        m.status = *st;
        repo.insert_mitigation(&m).unwrap();
    }
    let set = [MitigationStatus::Withdrawn, MitigationStatus::Pending];
    assert_eq!(repo.list_mitigations(Some(&set), None, 10, 0).unwrap().len(), 2);
    assert_eq!(repo.list_mitigations(Some(&[]), None, 10, 0).unwrap().len(), 0);
    assert_eq!(repo.list_mitigations(Some(&set), Some("other"), 10, 0).unwrap().len(), 0);
    assert_eq!(repo.count_active_global().unwrap(), 2);
    assert_eq!(repo.get_stats().unwrap().total_active, 1);
}

#[test]
fn one_mitigation_holds_a_scope_at_a_pop() {
    let mut repo = setup_repo();
    let first = make_mitigation("10.9.4.1", "pop1", None);
    let mut second = make_mitigation("10.9.4.1", "pop1", None);
    assert_eq!(repo.insert_mitigation(&first), Ok(()));
    assert_eq!(repo.insert_mitigation(&second), Err(StoreError::ConflictingMitigation));
    assert_eq!(repo.insert_mitigation(&first), Err(StoreError::DuplicateKey));
    second.status = MitigationStatus::Withdrawing;
    assert_eq!(repo.insert_mitigation(&second), Ok(()));
    second.status = MitigationStatus::Active;
    assert_eq!(repo.update_mitigation(&second), Err(StoreError::ConflictingMitigation));
    let kept = repo.get_mitigation(second.mitigation_id).unwrap().unwrap();
    assert_eq!(kept.status, MitigationStatus::Withdrawing);
    let mut done = first.clone();
    done.status = MitigationStatus::Withdrawn;
    done.withdrawn_at = Some(5);
    assert_eq!(repo.update_mitigation(&done), Ok(()));
    assert_eq!(repo.update_mitigation(&second), Ok(()));
    let found = repo.find_active_by_scope(&first.scope_hash, "pop1").unwrap().unwrap();
    assert_eq!(found.mitigation_id, second.mitigation_id);
}

#[test]
fn update_changes_what_it_names_and_nothing_else() {
    let mut repo = setup_repo();
    let stored = make_mitigation("10.9.5.1", "pop1", Some("cust"));
    repo.insert_mitigation(&stored).unwrap();
    let mut change = make_mitigation("10.9.5.2", "pop9", Some("other"));
    change.mitigation_id = stored.mitigation_id;
    change.scope_hash = "fresh".to_string();
    change.action_type = ActionType::Police;
    change.action_params = ActionParams { rate_bps: Some(5_000_000) };
    change.reason = "changed".to_string();
    change.expires_at = 77;
    change.created_at = 1;
    repo.update_mitigation(&change).unwrap();
    let got = repo.get_mitigation(stored.mitigation_id).unwrap().unwrap();
    assert_eq!(got.scope_hash, "fresh");
    assert_eq!(got.action_type, ActionType::Police);
    assert_eq!(got.action_params.rate_bps, Some(5_000_000));
    assert_eq!(got.reason, "changed");
    assert_eq!(got.expires_at, 77);
    assert_eq!(got.last_event_id, change.last_event_id);
    assert_eq!(got.match_criteria.dst_prefix, "10.9.5.2/32");
    assert_eq!(got.pop, "pop1");
    assert_eq!(got.victim_ip, "10.9.5.1");
    assert_eq!(got.customer_id, Some("cust".to_string()));
    assert_eq!(got.created_at, stored.created_at);
    assert_eq!(got.triggering_event_id, stored.triggering_event_id);
    let unknown = make_mitigation("10.9.5.3", "pop1", None);
    assert_eq!(repo.update_mitigation(&unknown), Ok(()));
    assert!(repo.get_mitigation(unknown.mitigation_id).unwrap().is_none());
}

#[test]
fn expired_mitigations_are_the_announced_ones_past_their_time() {
    let mut repo = setup_repo();
    let plan = [
        (MitigationStatus::Active, 5i64),
        (MitigationStatus::Escalated, 6),
        (MitigationStatus::Pending, 5),
        (MitigationStatus::Active, 10),
        (MitigationStatus::Withdrawing, 1),
    ];
    for (n, (st, exp)) in plan.iter().enumerate() {
        let mut m = make_mitigation(&format!("10.9.6.{}", n), "pop1", None);
        m.status = *st;
        m.expires_at = *exp;
        repo.insert_mitigation(&m).unwrap();
    }
    let due: Vec<String> = repo
        .find_expired_mitigations_at(6)
        .unwrap()
        .iter()
        .map(|m| m.victim_ip.clone())
        .collect();
    assert_eq!(due, vec!["10.9.6.0".to_string()]);
    assert_eq!(repo.find_expired_mitigations_at(7).unwrap().len(), 2);
    assert_eq!(repo.find_expired_mitigations_at(5).unwrap().len(), 0);
    assert_eq!(repo.find_expired_mitigations().unwrap().len(), 3);
}

#[test]
fn safelist_replacement_follows_the_kind_of_database() {
    let mut lite = Repository::new(DbPool::Sqlite);
    let mut pg = Repository::new(DbPool::Postgres);
    for repo in [&mut lite, &mut pg] {
        repo.insert_safelist_at("10.0.0.0/8", "a", None, 1).unwrap();
        repo.insert_safelist_at("172.16.0.0/12", "b", Some("lab"), 2).unwrap();
        repo.insert_safelist_at("10.0.0.0/8", "c", Some("again"), 3).unwrap();
    }
    let order = |r: &Repository| -> Vec<(String, String, i64)> {
        r.list_safelist()
            .unwrap()
            .iter()
            .map(|e| (e.prefix.clone(), e.added_by.clone(), e.added_at))
            .collect()
    };
    assert_eq!(
        order(&lite),
        vec![
            ("172.16.0.0/12".to_string(), "b".to_string(), 2),
            ("10.0.0.0/8".to_string(), "c".to_string(), 3)
        ]
    );
    assert_eq!(
        order(&pg),
        vec![
            ("10.0.0.0/8".to_string(), "c".to_string(), 3),
            ("172.16.0.0/12".to_string(), "b".to_string(), 2)
        ]
    );
    assert_eq!(pg.list_safelist().unwrap()[0].reason, Some("again".to_string()));
    assert_eq!(lite.remove_safelist("192.0.2.0/24"), Ok(false));
    assert_eq!(lite.remove_safelist("172.16.0.0/12"), Ok(true));
    assert_eq!(lite.list_safelist().unwrap().len(), 1);
}

#[test]
fn safelist_veto_covers_the_victim() {
    let mut repo = setup_repo();
    repo.insert_safelist("10.0.0.0/8", "admin", None).unwrap();
    assert_eq!(repo.is_safelisted("10.1.2.3"), Ok(true));
    assert_eq!(repo.is_safelisted_at("10.1.2.3", i64::MAX), Ok(true));
    assert_eq!(repo.is_safelisted("11.1.2.3"), Ok(false));
    assert_eq!(repo.is_safelisted("not an address"), Ok(false));
    assert_eq!(repo.is_safelisted("2001:db8::1"), Ok(false));
    repo.insert_safelist("2001:db8::/32", "admin", None).unwrap();
    assert_eq!(repo.is_safelisted("2001:db8::1"), Ok(true));
}

#[test]
fn quota_counts_reach_the_cap_of_a_customer() {
    let mut repo = setup_repo();
    let cap = 2;
    repo.insert_mitigation(&make_mitigation("198.51.100.1", "pop1", Some("acme"))).unwrap();
    assert!(repo.count_active_by_customer("acme").unwrap() < cap);
    repo.insert_mitigation(&make_mitigation("198.51.100.2", "pop1", Some("acme"))).unwrap();
    assert!(repo.count_active_by_customer("acme").unwrap() >= cap);
    assert_eq!(repo.count_active_by_pop("pop1").unwrap(), 2);
}

#[test]
fn expiry_leads_to_withdrawal() {
    let mut repo = setup_repo();
    let mut m = make_mitigation("203.0.113.10", "pop1", None);
    m.created_at = 0;
    m.expires_at = 5_000_000;
    repo.insert_mitigation(&m).unwrap();
    assert!(repo.find_expired_mitigations_at(4_000_000).unwrap().is_empty());
    let due = repo.find_expired_mitigations_at(6_000_000).unwrap();
    assert_eq!(due.len(), 1);
    let mut row = due[0].clone();
    row.status = MitigationStatus::Withdrawing;
    row.updated_at = 6_000_000;
    repo.update_mitigation(&row).unwrap();
    assert!(repo.find_active_by_scope(&m.scope_hash, "pop1").unwrap().is_none());
    assert!(repo.find_expired_mitigations_at(7_000_000).unwrap().is_empty());
    row.status = MitigationStatus::Withdrawn;
    row.withdrawn_at = Some(6_500_000);
    repo.update_mitigation(&row).unwrap();
    let end = repo.get_mitigation(m.mitigation_id).unwrap().unwrap();
    assert_eq!(end.status, MitigationStatus::Withdrawn);
    assert_eq!(end.withdrawn_at, Some(6_500_000));
    assert_eq!(repo.count_active_global().unwrap(), 0);
}

#[test]
fn pops_are_listed_in_ascending_order() {
    let mut repo = setup_repo();
    for (n, pop) in ["nyc1", "ams1", "lax1", "ams1", "ams10", "am"].iter().enumerate() {
        let mut m = make_mitigation(&format!("10.9.7.{}", n), pop, None);
        if n == 3 {
            m.status = MitigationStatus::Pending;
        }
        repo.insert_mitigation(&m).unwrap();
    }
    let pops: Vec<(String, u32, u32)> = repo
        .list_pops()
        .unwrap()
        .iter()
        .map(|p| (p.pop.clone(), p.active_mitigations, p.total_mitigations))
        .collect();
    assert_eq!(
        pops,
        vec![
            ("am".to_string(), 1, 1),
            ("ams1".to_string(), 1, 2),
            ("ams10".to_string(), 1, 1),
            ("lax1".to_string(), 1, 1),
            ("nyc1".to_string(), 1, 1)
        ]
    );
    let stats = repo.get_stats().unwrap();
    assert_eq!(stats.total_active, 5);
    assert_eq!(stats.total_mitigations, 6);
    assert_eq!(stats.pops[1].pop, "ams1");
    assert_eq!((stats.pops[1].active, stats.pops[1].total), (1, 2));
}

//! Taking in events: an event is stored, decided about, and what was decided
//! is stored with one line in the audit log.
//!
//! Taking in an event a second time changes nothing: an event that shares its
//! identifier, or its source and detector's identifier, with a stored one is
//! a duplicate.

use vstd::prelude::*;
use vstd::string::StringExecFns;

use crate::audit::{row_of_entry, ActorType, AuditEntry, AuditEntryView};
use crate::action::Action;
use crate::clock::now_micros;
use crate::ids::fresh_id;
use crate::config::Escalation;
use crate::decision::{
    counts_for, created, decision_for, decision_on, draft, profile_of, reason_text, refreshed,
    settled, step_for, withdrawing, Decision, DecisionView, Engine, EngineView, RejectReason,
};
use crate::inventory::owner_of;
use crate::playbook::action_for;
use crate::quota::{quota_verdict, QuotaScope};
use crate::domain::{
    holds_scope, opt_text, AttackEvent, AttackEventView, Mitigation, MitigationStatus,
    MitigationView,
};
use crate::json::json_ports;
use crate::net::{ip_addr_parse, IpAddress};
use crate::repository::{
    active_in_scope, clashes_with, collides_elsewhere, collides_with, has_audit_id, has_id,
    lemma_mitigation_id_is_unique, scopes_collide, updated, Repository, RepositoryView, StoreError,
};
use crate::scope::{hex128, hex128_of};
use crate::search::{any, lemma_first_where, lemma_lookup_iff_any, lookup, position};

verus! {

/// What became of an event that was taken in.
#[derive(Debug)]
pub enum Ingested {
    /// The event was stored already; nothing was done.
    Duplicate,
    /// The event was stored, and this was decided and stored.
    Decided(Decision),
}

/// The name of a decision in the audit log.
pub open spec fn decision_name(d: DecisionView) -> Seq<char> {
    match d {
        DecisionView::CreateNew(_) => "create"@,
        DecisionView::Refresh(_) => "refresh"@,
        DecisionView::Escalate(_, _) => "escalate"@,
        DecisionView::Reject(_, _) => "reject"@,
    }
}

/// The mitigation that a decision is about: the one that is created,
/// refreshed, stepped up to, or rejected.
pub open spec fn decision_target(d: DecisionView) -> Option<u128> {
    match d {
        DecisionView::CreateNew(m) => Some(m.mitigation_id),
        DecisionView::Refresh(m) => Some(m.mitigation_id),
        DecisionView::Escalate(_, to) => Some(to.mitigation_id),
        DecisionView::Reject(_, Some(m)) => Some(m.mitigation_id),
        DecisionView::Reject(_, None) => None,
    }
}

/// The details of a decision in the audit log: the reason of a rejection,
/// and nothing else.
pub open spec fn decision_details(d: DecisionView) -> Seq<char> {
    match d {
        DecisionView::Reject(reason, _) => "{\"reason\":\""@ + reason_text(reason) + "\"}"@,
        _ => "{}"@,
    }
}

/// The line of the audit log that records a decision.
pub open spec fn audit_for(d: DecisionView, source: Seq<char>, now: i64, audit_id: u128) -> AuditEntryView {
    AuditEntryView {
        audit_id,
        timestamp: now,
        schema_version: 1,
        actor_type: ActorType::Detector,
        actor_id: Some(source),
        action: decision_name(d),
        target_type: match decision_target(d) {
            Some(_) => Some("mitigation"@),
            None => None,
        },
        target_id: match decision_target(d) {
            Some(id) => Some(hex128(id)),
            None => None,
        },
        details: decision_details(d),
    }
}

/// The mitigations after a decision is stored.
pub open spec fn rows_after(rows: Seq<MitigationView>, d: DecisionView) -> Seq<MitigationView> {
    match d {
        DecisionView::CreateNew(m) => rows.push(m),
        DecisionView::Refresh(m) => rows.update(position(rows, has_id(m.mitigation_id)), m),
        DecisionView::Escalate(from, to) => rows.update(
            position(rows, has_id(from.mitigation_id)),
            from,
        ).push(to),
        DecisionView::Reject(_, Some(m)) => rows.push(m),
        DecisionView::Reject(_, None) => rows,
    }
}

/// The repository after an event is taken in and decided about.
pub open spec fn after_ingest(
    repo: RepositoryView,
    event: AttackEventView,
    d: DecisionView,
    now: i64,
    audit_id: u128,
) -> RepositoryView {
    RepositoryView {
        events: repo.events.push(event),
        mitigations: rows_after(repo.mitigations, d),
        audit: repo.audit.push(row_of_entry(audit_for(d, event.source, now, audit_id))),
        ..repo
    }
}

/// What became of an event, with the decision as its view.
pub enum OutcomeView {
    Duplicate,
    Refused(StoreError),
    Decided(DecisionView),
}

/// The view of the result of taking in an event.
pub open spec fn outcome_view(r: Result<Ingested, StoreError>) -> OutcomeView {
    match r {
        Ok(Ingested::Duplicate) => OutcomeView::Duplicate,
        Ok(Ingested::Decided(d)) => OutcomeView::Decided(d@),
        Err(e) => OutcomeView::Refused(e),
    }
}

/// Whether `outcome` and `after` are what taking in an event at `now` with
/// the two identifiers leads to.
///
/// A duplicate event changes nothing. Neither does an event for which one
/// of the two identifiers is taken already: it is refused. Any other event
/// is stored, decided about, and what was decided is stored with one line in
/// the audit log.
pub open spec fn ingested(
    engine: EngineView,
    before: RepositoryView,
    event: AttackEventView,
    now: i64,
    new_id: u128,
    audit_id: u128,
    outcome: OutcomeView,
    after: RepositoryView,
) -> bool {
    if any(before.events, clashes_with(event)) {
        outcome == OutcomeView::Duplicate && after == before
    } else if any(before.mitigations, has_id(new_id)) || any(before.audit, has_audit_id(audit_id)) {
        outcome == OutcomeView::Refused(StoreError::DuplicateKey) && after == before
    } else {
        let d = decision_for(engine, before, event, now, new_id);
        outcome == OutcomeView::Decided(d) && after == after_ingest(before, event, d, now, audit_id)
    }
}

/// Whether a decision can be stored: what it creates is new and holds a
/// scope that nothing holds, and what it replaces is stored and keeps its
/// scope.
pub open spec fn storable(rows: Seq<MitigationView>, d: DecisionView, new_id: u128) -> bool {
    match d {
        DecisionView::CreateNew(m) => m.mitigation_id == new_id && !any(rows, collides_with(m)),
        DecisionView::Refresh(m) => {
            let at = position(rows, has_id(m.mitigation_id));
            &&& at < rows.len()
            &&& updated(rows[at], m) == m
            &&& m.scope_hash == rows[at].scope_hash
            &&& m.pop == rows[at].pop
            &&& m.status == rows[at].status
        },
        DecisionView::Escalate(from, to) => {
            let at = position(rows, has_id(from.mitigation_id));
            &&& at < rows.len()
            &&& updated(rows[at], from) == from
            &&& !holds_scope(from.status)
            &&& holds_scope(rows[at].status)
            &&& to.mitigation_id == new_id
            &&& to.scope_hash == rows[at].scope_hash
            &&& to.pop == rows[at].pop
        },
        DecisionView::Reject(_, Some(m)) => m.mitigation_id == new_id && !holds_scope(m.status),
        DecisionView::Reject(_, None) => true,
    }
}

/// What is settled about an event can be stored in a repository.
proof fn lemma_settled_is_storable(
    repo: RepositoryView,
    escalation: Escalation,
    quota: Result<(), QuotaScope>,
    base: MitigationView,
    action: Action,
    ttl: u32,
    event: AttackEventView,
    now: i64,
)
    requires
        repo.wf(),
        !holds_scope(base.status),
    ensures
        storable(
            repo.mitigations,
            settled(
                escalation,
                quota,
                base,
                lookup(repo.mitigations, active_in_scope(base.scope_hash, base.pop)),
                action,
                ttl,
                event,
                now,
            ),
            base.mitigation_id,
        ),
{
    let rows = repo.mitigations;
    let pred = active_in_scope(base.scope_hash, base.pop);
    let existing = lookup(rows, pred);
    lemma_first_where(rows, pred, 0);
    lemma_lookup_iff_any(rows, pred);
    match existing {
        None => {
            if quota is Ok {
                let m = created(base, action, ttl, now);
                if any(rows, collides_with(m)) {
                    let i = choose|i: int|
                        0 <= i < rows.len() && collides_with(m)(#[trigger] rows[i]);
                    assert(pred(rows[i]));
                }
            }
        },
        Some(stored) => {
            let p = position(rows, pred);
            assert(rows[p] == stored);
            assert(pred(stored));
            lemma_mitigation_id_is_unique(repo, p);
            let from = withdrawing(stored, now);
            assert(updated(stored, from) == from);
            let m = refreshed(stored, event.event_id, ttl, now);
            assert(updated(stored, m) == m);
        },
    }
}

/// What is decided about an event can be stored in a repository.
pub proof fn lemma_decision_is_storable(
    engine: EngineView,
    repo: RepositoryView,
    event: AttackEventView,
    victim: IpAddress,
    ports: Seq<u16>,
    now: i64,
    new_id: u128,
)
    requires
        repo.wf(),
    ensures
        storable(repo.mitigations, decision_on(engine, repo, event, victim, ports, now, new_id), new_id),
{
    let owner = owner_of(engine.customers, victim);
    let base = draft(engine.pop, event, victim, ports, owner, now, new_id);
    let step = step_for(engine, repo.mitigations, event, victim, ports, now);
    if step is Some {
        let action = action_for(step->0, profile_of(owner));
        let ttl = engine.timers.ttl_for(step->0.ttl_seconds, profile_of(owner));
        lemma_settled_is_storable(
            repo,
            engine.escalation,
            quota_verdict(engine.quotas, counts_for(repo.mitigations, owner, engine.pop, now)),
            base,
            action,
            ttl,
            event,
            now,
        );
    }
}

/// Taking in an event that is no duplicate and is not refused stores the
/// event once and appends exactly one line to the audit log, whatever is
/// decided; the safelist stays as it was. Taking in a duplicate changes
/// nothing.
pub proof fn lemma_one_event_one_audit_line(
    engine: EngineView,
    before: RepositoryView,
    event: AttackEventView,
    now: i64,
    new_id: u128,
    audit_id: u128,
    outcome: OutcomeView,
    after: RepositoryView,
)
    requires
        ingested(engine, before, event, now, new_id, audit_id, outcome, after),
    ensures
        outcome is Decided ==> after.events == before.events.push(event) && after.audit.len()
            == before.audit.len() + 1 && after.audit.last().audit_id == audit_id
            && after.safelist == before.safelist,
        outcome is Decided ==> (outcome->Decided_0 is Reject ==> after.audit.last().action
            == "reject"@),
        !(outcome is Decided) ==> after == before,
        any(before.events, clashes_with(event)) ==> outcome == OutcomeView::Duplicate,
{
}

/// Taking in the same event twice stores it once and decides once: the
/// second time it is a duplicate.
pub proof fn lemma_ingest_is_idempotent(
    engine: EngineView,
    before: RepositoryView,
    event: AttackEventView,
    now: i64,
    new_id: u128,
    audit_id: u128,
    first: OutcomeView,
    between: RepositoryView,
    later: i64,
    other_id: u128,
    other_audit: u128,
    second: OutcomeView,
    after: RepositoryView,
)
    requires
        ingested(engine, before, event, now, new_id, audit_id, first, between),
        first is Decided || first is Duplicate,
        ingested(engine, between, event, later, other_id, other_audit, second, after),
    ensures
        second == OutcomeView::Duplicate,
        after == between,
{
    if first is Decided {
        let n = before.events.len() as int;
        assert(between.events[n] == event);
        assert(clashes_with(event)(between.events[n]));
    }
}

/// Builds the line of the audit log that records a decision.
fn build_audit(d: &Decision, source: &str, now: i64, audit_id: u128) -> (entry: AuditEntry)
    ensures
        entry@ == audit_for(d@, source@, now, audit_id),
{
    let (action, target, details) = match d {
        Decision::CreateNew(m) => ("create", Some(m.mitigation_id), "{}".to_owned()),
        Decision::Refresh(m) => ("refresh", Some(m.mitigation_id), "{}".to_owned()),
        Decision::Escalate(_, to) => ("escalate", Some(to.mitigation_id), "{}".to_owned()),
        Decision::Reject(reason, row) => (
            "reject",
            match row {
                Some(m) => Some(m.mitigation_id),
                None => None,
            },
            "{\"reason\":\"".to_owned().concat(reason.to_text().as_str()).concat("\"}"),
        ),
    };
    let (target_type, target_id) = match target {
        Some(id) => (Some("mitigation".to_owned()), Some(hex128_of(id))),
        None => (None, None),
    };
    AuditEntry {
        audit_id,
        timestamp: now,
        schema_version: 1,
        actor_type: ActorType::Detector,
        actor_id: Some(source.to_owned()),
        action: action.to_owned(),
        target_type,
        target_id,
        details,
    }
}

/// Stores what was decided.
fn store_decision(repo: &mut Repository, d: &Decision, new_id: u128) -> (ok: bool)
    requires
        old(repo)@.wf(),
        storable(old(repo)@.mitigations, d@, new_id),
        !any(old(repo)@.mitigations, has_id(new_id)),
    ensures
        ok,
        final(repo)@.wf(),
        final(repo)@ == (RepositoryView {
            mitigations: rows_after(old(repo)@.mitigations, d@),
            ..old(repo)@
        }),
{
    let ghost before = repo@;
    let ghost rows = before.mitigations;
    match d {
        Decision::CreateNew(m) => {
            assert(d@ == DecisionView::CreateNew(m@));
            assert(m.mitigation_id == new_id);
            let r = repo.insert_mitigation(m);
            r.is_ok()
        },
        Decision::Refresh(m) => {
            assert(d@ == DecisionView::Refresh(m@));
            proof {
                let at = position(rows, has_id(m@.mitigation_id));
                assert(0 <= at < rows.len()) by {
                    lemma_first_where(rows, has_id(m@.mitigation_id), 0);
                }
                if collides_elsewhere(rows, at, m@) {
                    let j = choose|j: int|
                        0 <= j < rows.len() && j != at && scopes_collide(#[trigger] rows[j], m@);
                    assert(scopes_collide(rows[j], rows[at]));
                }
            }
            let r = repo.update_mitigation(m);
            r.is_ok()
        },
        Decision::Escalate(from, to) => {
            assert(d@ == DecisionView::Escalate(from@, to@));
            let ghost at = position(rows, has_id(from@.mitigation_id));
            proof {
                lemma_first_where(rows, has_id(from@.mitigation_id), 0);
                if collides_elsewhere(rows, at, from@) {
                    let j = choose|j: int|
                        0 <= j < rows.len() && j != at && scopes_collide(#[trigger] rows[j], from@);
                    assert(false);
                }
            }
            let r1 = repo.update_mitigation(from);
            let ghost mid = repo@.mitigations;
            proof {
                assert(mid == rows.update(at, from@));
                if any(mid, has_id(new_id)) {
                    let j = choose|j: int| 0 <= j < mid.len() && has_id(new_id)(#[trigger] mid[j]);
                    if j == at {
                        assert(has_id(new_id)(rows[at]));
                    } else {
                        assert(mid[j] == rows[j]);
                        assert(has_id(new_id)(rows[j]));
                    }
                    assert(false);
                }
                if any(mid, collides_with(to@)) {
                    let j = choose|j: int|
                        0 <= j < mid.len() && collides_with(to@)(#[trigger] mid[j]);
                    if j != at {
                        assert(mid[j] == rows[j]);
                        assert(scopes_collide(rows[j], rows[at]));
                    }
                    assert(false);
                }
            }
            let r2 = repo.insert_mitigation(to);
            r1.is_ok() && r2.is_ok()
        },
        Decision::Reject(_, row) => match row {
            Some(m) => {
                assert(d@ matches DecisionView::Reject(_, Some(v)) && v == m@);
                assert(m.mitigation_id == new_id);
                proof {
                    if any(rows, collides_with(m@)) {
                        let j = choose|j: int|
                            0 <= j < rows.len() && collides_with(m@)(#[trigger] rows[j]);
                        assert(false);
                    }
                }
                let r = repo.insert_mitigation(m);
                r.is_ok()
            },
            None => true,
        },
    }
}

impl Engine {
    /// Takes in an event at the instant `now`. `new_id` is the identifier
    /// for the mitigation that is stored for the event, `audit_id` the one
    /// for the line in the audit log.
    ///
    /// A duplicate event changes nothing. Neither does an event for which
    /// one of the two identifiers is taken already: it is refused. Any other
    /// event is stored, decided about, and what was decided is stored with
    /// one line in the audit log.
    pub fn ingest_event_with(
        &self,
        repo: &mut Repository,
        event: &AttackEvent,
        now: i64,
        new_id: u128,
        audit_id: u128,
    ) -> (r: Result<Ingested, StoreError>)
        ensures
            final(repo)@.wf(),
            ingested(self@, old(repo)@, event@, now, new_id, audit_id, outcome_view(r), final(repo)@),
    {
        let ghost before = repo@;
        let taken = match repo.get_mitigation(new_id) {
            Ok(found) => found.is_some(),
            Err(_) => true,
        };
        proof {
            lemma_lookup_iff_any(before.mitigations, has_id(new_id));
        }
        if repo.has_event_like(event) {
            return Ok(Ingested::Duplicate);
        }
        if taken || repo.has_audit(audit_id) {
            return Err(StoreError::DuplicateKey);
        }
        let d = self.decide(repo, event, now, new_id);
        proof {
            let victim = ip_addr_parse(event@.victim_ip);
            let ports = json_ports(event@.top_dst_ports_json);
            if victim is Some && ports is Some {
                lemma_decision_is_storable(
                    self@,
                    before,
                    event@,
                    victim->0,
                    ports->0,
                    now,
                    new_id,
                );
            }
        }
        let stored_event = repo.insert_event(event);
        let stored_rows = store_decision(repo, &d, new_id);
        let entry = build_audit(&d, event.source.as_str(), now, audit_id);
        let stored_audit = repo.insert_audit(&entry);
        Ok(Ingested::Decided(d))
    }

    /// Takes in an event now.
    ///
    /// Reads the clock once, draws two fresh identifiers, and does as
    /// [`Self::ingest_event_with`] does with them.
    pub fn ingest_event(&self, repo: &mut Repository, event: &AttackEvent) -> (r: Result<
        Ingested,
        StoreError,
    >)
        ensures
            final(repo)@.wf(),
            exists|now: i64, new_id: u128, audit_id: u128| #[trigger]
                ingested(
                    self@,
                    old(repo)@,
                    event@,
                    now,
                    new_id,
                    audit_id,
                    outcome_view(r),
                    final(repo)@,
                ),
    {
        let now = now_micros();
        let new_id = fresh_id();
        let audit_id = fresh_id();
        self.ingest_event_with(repo, event, now, new_id, audit_id)
    }
}

} // verus!
